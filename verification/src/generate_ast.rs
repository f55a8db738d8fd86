use vstd::prelude::*;

use crate::text::{chars_of, push_char, string_of_range};

verus! {

// The description of the syntax tree types: each line names a node kind
// and, after a colon, its comma-separated fields.

/// A node kind of the syntax tree: its name, the name of its type (the
/// kind followed by the base name), and its fields as written.
#[derive(Debug)]
pub struct TreeType {
    pub base_class_name: String,
    pub class_name: String,
    pub fields: Vec<String>,
}

/// The model of a [`TreeType`].
pub struct TreeTypeView {
    pub base_class_name: Seq<char>,
    pub class_name: Seq<char>,
    pub fields: Seq<Seq<char>>,
}

/// The models of a sequence of strings.
pub open spec fn strings_view(s: Seq<String>) -> Seq<Seq<char>> {
    s.map_values(|x: String| x@)
}

impl View for TreeType {
    type V = TreeTypeView;

    open spec fn view(&self) -> TreeTypeView {
        TreeTypeView {
            base_class_name: self.base_class_name@,
            class_name: self.class_name@,
            fields: strings_view(self.fields@),
        }
    }
}

/// The definition of one syntax tree type: the file it is written to and
/// its node kinds.
#[derive(Debug)]
pub struct AstDefinition {
    pub path: String,
    pub tree_types: Vec<TreeType>,
}

/// The model of an [`AstDefinition`].
pub struct AstDefinitionView {
    pub path: Seq<char>,
    pub tree_types: Seq<TreeTypeView>,
}

impl View for AstDefinition {
    type V = AstDefinitionView;

    open spec fn view(&self) -> AstDefinitionView {
        AstDefinitionView {
            path: self.path@,
            tree_types: self.tree_types@.map_values(|t: TreeType| t@),
        }
    }
}

/// Unicode's `White_Space` characters, which `char::is_whitespace` accepts.
pub open spec fn is_white(c: char) -> bool {
    ||| c == '\t'
    ||| c == '\n'
    ||| c == '\x0B'
    ||| c == '\x0C'
    ||| c == '\r'
    ||| c == ' '
    ||| c == '\u{85}'
    ||| c == '\u{A0}'
    ||| c == '\u{1680}'
    ||| ('\u{2000}' <= c && c <= '\u{200A}')
    ||| c == '\u{2028}'
    ||| c == '\u{2029}'
    ||| c == '\u{202F}'
    ||| c == '\u{205F}'
    ||| c == '\u{3000}'
}

/// `s` without its leading white space.
pub open spec fn trim_start(s: Seq<char>) -> Seq<char>
    decreases s.len(),
{
    if s.len() > 0 && is_white(s[0]) {
        trim_start(s.drop_first())
    } else {
        s
    }
}

/// `s` without its trailing white space.
pub open spec fn trim_end(s: Seq<char>) -> Seq<char>
    decreases s.len(),
{
    if s.len() > 0 && is_white(s.last()) {
        trim_end(s.drop_last())
    } else {
        s
    }
}

/// `s` without leading and trailing white space (`str::trim`).
pub open spec fn trim(s: Seq<char>) -> Seq<char> {
    trim_end(trim_start(s))
}

/// The position of the first `c` in `s`, if any.
pub open spec fn find_char(s: Seq<char>, c: char) -> Option<int>
    decreases s.len(),
{
    if s.len() == 0 {
        None
    } else if s[0] == c {
        Some(0)
    } else {
        match find_char(s.drop_first(), c) {
            Some(i) => Some(i + 1),
            None => None,
        }
    }
}

/// The pieces of `s` between the occurrences of `c` (`str::split`).
pub open spec fn split_on(s: Seq<char>, c: char) -> Seq<Seq<char>>
    decreases s.len(),
{
    match find_char(s, c) {
        Some(i) => if 0 <= i < s.len() {
            seq![s.take(i)] + split_on(s.skip(i + 1), c)
        } else {
            seq![s]
        },
        None => seq![s],
    }
}

/// `s` with ASCII capitals made small (`str::to_ascii_lowercase`).
pub open spec fn ascii_lower(s: Seq<char>) -> Seq<char> {
    s.map_values(|c: char| lower_char(c))
}

/// The small letter of an ASCII capital; any other character itself.
pub open spec fn lower_char(c: char) -> char {
    if 'A' <= c && c <= 'Z' {
        ((c as u32) + 32) as char
    } else {
        c
    }
}

/// The node kind that a description line stands for: the part before the
/// first colon, trimmed, names it; the part after, split at commas and
/// trimmed, gives its fields.
pub open spec fn tree_type_of(base_name: Seq<char>, line: Seq<char>) -> TreeTypeView {
    let i = find_char(line, ':')->Some_0;
    let base = trim(line.take(i));
    TreeTypeView {
        base_class_name: base,
        class_name: base + base_name,
        fields: split_on(line.skip(i + 1), ',').map_values(|f: Seq<char>| trim(f)),
    }
}

/// The definition of the syntax tree type `base_name` from its description.
pub open spec fn definition_of(
    output_dir: Seq<char>,
    base_name: Seq<char>,
    types: Seq<Seq<char>>,
) -> AstDefinitionView {
    AstDefinitionView {
        path: output_dir + seq!['/'] + ascii_lower(base_name),
        tree_types: types.map_values(|line: Seq<char>| tree_type_of(base_name, line)),
    }
}

/// The description of the expressions.
pub open spec fn expr_types() -> Seq<Seq<char>> {
    seq![
        "Assign   : Token name, Rc<Expr> value"@,
        "Binary   : Rc<Expr> left, Token operator, Rc<Expr> right"@,
        "Call     : Rc<Expr> callee, Token paren, Vec<Rc<Expr>> arguments"@,
        "Get      : Rc<Expr> object, Token name"@,
        "Grouping : Rc<Expr> expression"@,
        "Literal  : Option<Object> value"@,
        "Logical  : Rc<Expr> left, Token operator, Rc<Expr> right"@,
        "Set      : Rc<Expr> object, Token name, Rc<Expr> value"@,
        "Super    : Token keyword, Token method"@,
        "This     : Token keyword"@,
        "Unary    : Token operator, Rc<Expr> right"@,
        "Variable : Token name"@,
    ]
}

/// The description of the statements.
pub open spec fn stmt_types() -> Seq<Seq<char>> {
    seq![
        "Block      : Rc<Vec<Rc<Stmt>>> statements"@,
        "Class      : Token name, Option<Rc<Expr>> superclass, Rc<Vec<Rc<Stmt>>> methods"@,
        "Break      : Token token"@,
        "Expression : Rc<Expr> expression"@,
        "Function   : Token name, Rc<Vec<Token>> params, Rc<Vec<Rc<Stmt>>> body"@,
        "If         : Rc<Expr> condition, Rc<Stmt> then_branch, Option<Rc<Stmt>> else_branch"@,
        "Print      : Rc<Expr> expression"@,
        "Return     : Token keyword, Option<Rc<Expr>> value"@,
        "Var        : Token name, Option<Rc<Expr>> initializer"@,
        "While      : Rc<Expr> condition, Rc<Stmt> body"@,
    ]
}

/// Whether `c` is white space (`char::is_whitespace`).
pub fn is_whitespace(c: char) -> (r: bool)
    ensures
        r == is_white(c),
{
    c == '\t' || c == '\n' || c == '\x0B' || c == '\x0C' || c == '\r' || c == ' ' || c == '\u{85}'
        || c == '\u{A0}' || c == '\u{1680}' || ('\u{2000}' <= c && c <= '\u{200A}') || c
        == '\u{2028}' || c == '\u{2029}' || c == '\u{202F}' || c == '\u{205F}' || c == '\u{3000}'
}

proof fn lemma_trim_start_skip(s: Seq<char>, i: int)
    requires
        0 <= i <= s.len(),
        forall|j: int| 0 <= j < i ==> is_white(#[trigger] s[j]),
    ensures
        trim_start(s) == trim_start(s.skip(i)),
    decreases i,
{
    if i > 0 {
        assert(s.skip(1) =~= s.drop_first());
        lemma_trim_start_skip(s.drop_first(), i - 1);
        assert(s.drop_first().skip(i - 1) =~= s.skip(i));
    } else {
        assert(s.skip(0) =~= s);
    }
}

proof fn lemma_trim_end_take(s: Seq<char>, i: int)
    requires
        0 <= i <= s.len(),
        forall|j: int| i <= j < s.len() ==> is_white(#[trigger] s[j]),
    ensures
        trim_end(s) == trim_end(s.take(i)),
    decreases s.len() - i,
{
    if i < s.len() {
        assert(s.take(s.len() - 1) =~= s.drop_last());
        lemma_trim_end_take(s.drop_last(), i);
        assert(s.drop_last().take(i) =~= s.take(i));
    } else {
        assert(s.take(i) =~= s);
    }
}

/// The string of `v[from..to]` without leading and trailing white space.
pub(crate) fn trimmed(v: &Vec<char>, from: usize, to: usize) -> (r: String)
    requires
        from <= to <= v@.len(),
    ensures
        r@ == trim(v@.subrange(from as int, to as int)),
{
    let ghost s = v@.subrange(from as int, to as int);
    let mut a = from;
    while a < to && is_whitespace(v[a])
        invariant
            from <= a <= to <= v@.len(),
            s == v@.subrange(from as int, to as int),
            forall|j: int| from <= j < a ==> is_white(#[trigger] v@[j]),
        decreases to - a,
    {
        a = a + 1;
    }
    proof {
        assert forall|j: int| 0 <= j < a - from implies is_white(#[trigger] s[j]) by {
            assert(s[j] == v@[from + j]);
        }
        lemma_trim_start_skip(s, a - from);
        assert(s.skip(a - from) =~= v@.subrange(a as int, to as int));
        if a == to || !is_white(v@[a as int]) {
            assert(trim_start(v@.subrange(a as int, to as int)) == v@.subrange(a as int, to as int));
        }
    }
    let mut b = to;
    while b > a && is_whitespace(v[b - 1])
        invariant
            from <= a <= b <= to <= v@.len(),
            forall|j: int| b <= j < to ==> is_white(#[trigger] v@[j]),
        decreases b - a,
    {
        b = b - 1;
    }
    proof {
        let m = v@.subrange(a as int, to as int);
        assert forall|j: int| b - a <= j < m.len() implies is_white(#[trigger] m[j]) by {
            assert(m[j] == v@[a + j]);
        }
        lemma_trim_end_take(m, b - a);
        assert(m.take(b - a) =~= v@.subrange(a as int, b as int));
    }
    string_of_range(v, a, b)
}

/// The position of the first `c` in `v[from..]`, if any.
pub(crate) fn find_from(v: &Vec<char>, from: usize, c: char) -> (r: Option<usize>)
    requires
        from <= v@.len(),
    ensures
        match find_char(v@.skip(from as int), c) {
            Some(i) => r == Some((from + i) as usize),
            None => r is None,
        },
{
    let mut i = from;
    while i < v.len()
        invariant
            from <= i <= v@.len(),
            find_char(v@.skip(from as int), c) == match find_char(v@.skip(i as int), c) {
                Some(k) => Some(k + (i - from)),
                None => None,
            },
        decreases v@.len() - i,
    {
        assert(v@.skip(i as int).drop_first() =~= v@.skip(i + 1));
        if v[i] == c {
            return Some(i);
        }
        i = i + 1;
    }
    None
}

proof fn lemma_has_colon(s: Seq<char>, k: int)
    requires
        0 <= k < s.len(),
        s[k] == ':',
    ensures
        find_char(s, ':') is Some,
    decreases k,
{
    if s[0] != ':' {
        assert(s.drop_first()[k - 1] == ':');
        lemma_has_colon(s.drop_first(), k - 1);
    }
}

pub(crate) proof fn lemma_find_char_bound(s: Seq<char>, c: char)
    ensures
        find_char(s, c) matches Some(i) ==> 0 <= i < s.len() && s[i] == c,
    decreases s.len(),
{
    if s.len() > 0 && s[0] != c {
        lemma_find_char_bound(s.drop_first(), c);
    }
}

/// The trimmed pieces of `v[from..]` between commas.
fn split_fields(v: &Vec<char>, from: usize) -> (r: Vec<String>)
    requires
        from <= v@.len(),
    ensures
        strings_view(r@) == split_on(v@.skip(from as int), ',').map_values(
            |f: Seq<char>| trim(f),
        ),
    decreases v@.len() - from,
{
    let ghost s = v@.skip(from as int);
    proof {
        lemma_find_char_bound(s, ',');
    }
    let n = v.len();
    let found = find_from(v, from, ',');
    match found {
        Some(i) => {
            proof {
                assert(s == v@.skip(from as int));
                assert(find_char(s, ',') is Some);
                let k = find_char(s, ',')->Some_0;
                assert(0 <= k < s.len());
                assert(s.len() == v@.len() - from);
                assert(i == from + k);
                assert(s.take(k) =~= v@.subrange(from as int, i as int));
                assert(s.skip(k + 1) =~= v@.skip(i + 1));
            }
            let first = trimmed(v, from, i);
            let mut rest = split_fields(v, i + 1);
            let mut out: Vec<String> = Vec::new();
            out.push(first);
            let ghost first_v = first@;
            let ghost rest_v = rest@;
            out.append(&mut rest);
            proof {
                assert(out@ =~= seq![first] + rest_v);
                assert(strings_view(out@) =~= seq![first_v] + strings_view(rest_v));
                let k = find_char(s, ',')->Some_0;
                let f = |f: Seq<char>| trim(f);
                let parts = split_on(s, ',');
                assert(parts == seq![s.take(k)] + split_on(s.skip(k + 1), ','));
                assert(parts.map_values(f) =~= seq![trim(s.take(k))] + split_on(
                    s.skip(k + 1),
                    ',',
                ).map_values(f));
            }
            out
        },
        None => {
            let only = trimmed(v, from, v.len());
            let mut out: Vec<String> = Vec::new();
            out.push(only);
            proof {
                assert(s =~= v@.subrange(from as int, v@.len() as int));
                assert(split_on(s, ',') == seq![s]);
                assert(strings_view(out@) =~= split_on(s, ',').map_values(|f: Seq<char>| trim(f)));
            }
            out
        },
    }
}

/// The node kind that the description `line` stands for, in the syntax
/// tree type `base_name`. The line must hold a colon.
pub fn tree_type(base_name: &str, line: &str) -> (r: TreeType)
    requires
        find_char(line@, ':') is Some,
    ensures
        r@ == tree_type_of(base_name@, line@),
{
    let v = chars_of(line);
    let n = v.len();
    proof {
        lemma_find_char_bound(v@, ':');
        assert(v@.skip(0) =~= v@);
    }
    let i = match find_from(&v, 0, ':') {
        Some(i) => i,
        None => {
            assert(false);
            0
        },
    };
    let base = trimmed(&v, 0, i);
    let mut class_name = base.clone();
    class_name.append(base_name);
    let fields = split_fields(&v, i + 1);
    proof {
        assert(v@.subrange(0, i as int) =~= line@.take(i as int));
    }
    TreeType { base_class_name: base, class_name, fields }
}

/// `s` with ASCII capitals made small.
pub fn to_ascii_lowercase(s: &str) -> (r: String)
    ensures
        r@ == ascii_lower(s@),
{
    let v = chars_of(s);
    let mut out = String::new();
    let mut i: usize = 0;
    while i < v.len()
        invariant
            i <= v@.len(),
            v@ == s@,
            out@ =~= ascii_lower(s@).take(i as int),
        decreases v@.len() - i,
    {
        let c = v[i];
        let d = if 'A' <= c && c <= 'Z' {
            let n: u32 = (c as u32) + 32;
            let l = n as u8;
            l as char
        } else {
            c
        };
        assert(d == lower_char(c));
        push_char(&mut out, d);
        assert(ascii_lower(s@).take(i + 1) =~= ascii_lower(s@).take(i as int).push(d));
        i = i + 1;
    }
    assert(ascii_lower(s@).take(v@.len() as int) =~= ascii_lower(s@));
    out
}

/// The definition of the syntax tree type `base_name` from the description
/// `types`, to be written under `output_dir`. Every line of the
/// description must hold a colon.
pub fn define_ast(output_dir: &str, base_name: &str, imports: &[&str], types: &[&str]) -> (r:
    AstDefinition)
    requires
        forall|i: int| 0 <= i < types@.len() ==> (find_char(#[trigger] types@[i]@, ':') is Some),
    ensures
        r@ == definition_of(output_dir@, base_name@, types@.map_values(|x: &str| x@)),
{
    let _ = imports;
    let mut path = String::from_str(output_dir);
    push_char(&mut path, '/');
    let lower = to_ascii_lowercase(base_name);
    path.append(lower.as_str());
    let mut tree_types: Vec<TreeType> = Vec::new();
    let mut i: usize = 0;
    while i < types.len()
        invariant
            i <= types@.len(),
            forall|k: int| 0 <= k < types@.len() ==> (find_char(#[trigger] types@[k]@, ':') is Some),
            tree_types@.map_values(|t: TreeType| t@) =~= types@.map_values(|x: &str| x@).take(
                i as int,
            ).map_values(|line: Seq<char>| tree_type_of(base_name@, line)),
        decreases types@.len() - i,
    {
        let t = tree_type(base_name, types[i]);
        let ghost prev = tree_types@;
        tree_types.push(t);
        proof {
            let f = |x: &str| x@;
            let g = |line: Seq<char>| tree_type_of(base_name@, line);
            assert(types@.map_values(f).take(i + 1) =~= types@.map_values(f).take(i as int).push(
                types@[i as int]@,
            ));
            assert(tree_types@.map_values(|t: TreeType| t@) =~= prev.map_values(|t: TreeType| t@).push(
                t@,
            ));
            assert(types@.map_values(f).take(i + 1).map_values(g) =~= types@.map_values(f).take(
                i as int,
            ).map_values(g).push(g(types@[i as int]@)));
        }
        i = i + 1;
    }
    assert(types@.map_values(|x: &str| x@).take(types@.len() as int) =~= types@.map_values(
        |x: &str| x@,
    ));
    assert(path@ == output_dir@ + seq!['/'] + ascii_lower(base_name@));
    let r = AstDefinition { path, tree_types };
    assert(r@.tree_types == definition_of(output_dir@, base_name@, types@.map_values(|x: &str| x@)).tree_types);
    r
}

/// The definitions of the expression and statement syntax tree types, to
/// be written under `output_dir`.
pub fn generate_ast(output_dir: &str) -> (r: Vec<AstDefinition>)
    ensures
        r@.len() == 2,
        r@[0]@ == definition_of(output_dir@, "Expr"@, expr_types()),
        r@[1]@ == definition_of(output_dir@, "Stmt"@, stmt_types()),
{
    let expr: &[&str] = &[
        "Assign   : Token name, Rc<Expr> value",
        "Binary   : Rc<Expr> left, Token operator, Rc<Expr> right",
        "Call     : Rc<Expr> callee, Token paren, Vec<Rc<Expr>> arguments",
        "Get      : Rc<Expr> object, Token name",
        "Grouping : Rc<Expr> expression",
        "Literal  : Option<Object> value",
        "Logical  : Rc<Expr> left, Token operator, Rc<Expr> right",
        "Set      : Rc<Expr> object, Token name, Rc<Expr> value",
        "Super    : Token keyword, Token method",
        "This     : Token keyword",
        "Unary    : Token operator, Rc<Expr> right",
        "Variable : Token name",
    ];
    let stmt: &[&str] = &[
        "Block      : Rc<Vec<Rc<Stmt>>> statements",
        "Class      : Token name, Option<Rc<Expr>> superclass, Rc<Vec<Rc<Stmt>>> methods",
        "Break      : Token token",
        "Expression : Rc<Expr> expression",
        "Function   : Token name, Rc<Vec<Token>> params, Rc<Vec<Rc<Stmt>>> body",
        "If         : Rc<Expr> condition, Rc<Stmt> then_branch, Option<Rc<Stmt>> else_branch",
        "Print      : Rc<Expr> expression",
        "Return     : Token keyword, Option<Rc<Expr>> value",
        "Var        : Token name, Option<Rc<Expr>> initializer",
        "While      : Rc<Expr> condition, Rc<Stmt> body",
    ];
    proof {
        reveal_strlit("Assign   : Token name, Rc<Expr> value");
        lemma_has_colon("Assign   : Token name, Rc<Expr> value"@, 9);
        reveal_strlit("Binary   : Rc<Expr> left, Token operator, Rc<Expr> right");
        lemma_has_colon("Binary   : Rc<Expr> left, Token operator, Rc<Expr> right"@, 9);
        reveal_strlit("Call     : Rc<Expr> callee, Token paren, Vec<Rc<Expr>> arguments");
        lemma_has_colon("Call     : Rc<Expr> callee, Token paren, Vec<Rc<Expr>> arguments"@, 9);
        reveal_strlit("Get      : Rc<Expr> object, Token name");
        lemma_has_colon("Get      : Rc<Expr> object, Token name"@, 9);
        reveal_strlit("Grouping : Rc<Expr> expression");
        lemma_has_colon("Grouping : Rc<Expr> expression"@, 9);
        reveal_strlit("Literal  : Option<Object> value");
        lemma_has_colon("Literal  : Option<Object> value"@, 9);
        reveal_strlit("Logical  : Rc<Expr> left, Token operator, Rc<Expr> right");
        lemma_has_colon("Logical  : Rc<Expr> left, Token operator, Rc<Expr> right"@, 9);
        reveal_strlit("Set      : Rc<Expr> object, Token name, Rc<Expr> value");
        lemma_has_colon("Set      : Rc<Expr> object, Token name, Rc<Expr> value"@, 9);
        reveal_strlit("Super    : Token keyword, Token method");
        lemma_has_colon("Super    : Token keyword, Token method"@, 9);
        reveal_strlit("This     : Token keyword");
        lemma_has_colon("This     : Token keyword"@, 9);
        reveal_strlit("Unary    : Token operator, Rc<Expr> right");
        lemma_has_colon("Unary    : Token operator, Rc<Expr> right"@, 9);
        reveal_strlit("Variable : Token name");
        lemma_has_colon("Variable : Token name"@, 9);
        reveal_strlit("Block      : Rc<Vec<Rc<Stmt>>> statements");
        lemma_has_colon("Block      : Rc<Vec<Rc<Stmt>>> statements"@, 11);
        reveal_strlit("Class      : Token name, Option<Rc<Expr>> superclass, Rc<Vec<Rc<Stmt>>> methods");
        lemma_has_colon("Class      : Token name, Option<Rc<Expr>> superclass, Rc<Vec<Rc<Stmt>>> methods"@, 11);
        reveal_strlit("Break      : Token token");
        lemma_has_colon("Break      : Token token"@, 11);
        reveal_strlit("Expression : Rc<Expr> expression");
        lemma_has_colon("Expression : Rc<Expr> expression"@, 11);
        reveal_strlit("Function   : Token name, Rc<Vec<Token>> params, Rc<Vec<Rc<Stmt>>> body");
        lemma_has_colon("Function   : Token name, Rc<Vec<Token>> params, Rc<Vec<Rc<Stmt>>> body"@, 11);
        reveal_strlit("If         : Rc<Expr> condition, Rc<Stmt> then_branch, Option<Rc<Stmt>> else_branch");
        lemma_has_colon("If         : Rc<Expr> condition, Rc<Stmt> then_branch, Option<Rc<Stmt>> else_branch"@, 11);
        reveal_strlit("Print      : Rc<Expr> expression");
        lemma_has_colon("Print      : Rc<Expr> expression"@, 11);
        reveal_strlit("Return     : Token keyword, Option<Rc<Expr>> value");
        lemma_has_colon("Return     : Token keyword, Option<Rc<Expr>> value"@, 11);
        reveal_strlit("Var        : Token name, Option<Rc<Expr>> initializer");
        lemma_has_colon("Var        : Token name, Option<Rc<Expr>> initializer"@, 11);
        reveal_strlit("While      : Rc<Expr> condition, Rc<Stmt> body");
        lemma_has_colon("While      : Rc<Expr> condition, Rc<Stmt> body"@, 11);
        assert(expr@.map_values(|x: &str| x@) =~= expr_types());
        assert(stmt@.map_values(|x: &str| x@) =~= stmt_types());
        assert forall|i: int| 0 <= i < expr@.len() implies (find_char(#[trigger] expr@[i]@, ':') is Some) by {
            assert(expr@[i]@ == expr_types()[i]);
        }
        assert forall|i: int| 0 <= i < stmt@.len() implies (find_char(#[trigger] stmt@[i]@, ':') is Some) by {
            assert(stmt@[i]@ == stmt_types()[i]);
        }
    }
    let e = define_ast(output_dir, "Expr", &["error", "token", "object", "rc"], expr);
    let s = define_ast(output_dir, "Stmt", &["error", "expr", "token", "rc"], stmt);
    let mut r: Vec<AstDefinition> = Vec::new();
    r.push(e);
    r.push(s);
    r
}

} // verus!
