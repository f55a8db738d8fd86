use vstd::prelude::*;

use crate::generate_ast::{
    find_char, find_from, lemma_find_char_bound, split_on, strings_view, trim, trimmed,
};
use crate::text::{chars_of, string_of_range};

verus! {

// The Rust source of a syntax tree type, from its description: each line
// names a node kind and, after a colon, its comma-separated fields, each a
// type and a name.

/// The name for `str::to_lowercase`: the string with every character made
/// small by Unicode's rules.
pub uninterp spec fn lowercase_of(s: Seq<char>) -> Seq<char>;

/// `str::to_lowercase`; what it gives is left to the name `lowercase_of`.
#[verifier::external_body]
fn lowercase(s: &str) -> (r: String)
    ensures
        r@ == lowercase_of(s@),
{
    s.to_lowercase()
}

/// The node kind a description line names: the part before its first
/// colon, trimmed.
pub open spec fn type_base(line: Seq<char>) -> Seq<char> {
    trim(line.take(find_char(line, ':')->Some_0))
}

/// The field descriptions of a line: the part after its first colon,
/// split at commas (not trimmed).
pub open spec fn type_args(line: Seq<char>) -> Seq<Seq<char>> {
    split_on(line.skip(find_char(line, ':')->Some_0 + 1), ',')
}

/// A field description `TYPE NAME`, trimmed and split at its first space,
/// written as `NAME: TYPE`.
pub open spec fn field_decl(arg: Seq<char>) -> Seq<char> {
    let a = trim(arg);
    let i = find_char(a, ' ')->Some_0;
    a.skip(i + 1) + ": "@ + a.take(i)
}

/// A description that can be written out: every line has a colon, and
/// every field description, trimmed, has a space.
pub open spec fn describable(types: Seq<Seq<char>>) -> bool {
    forall|k: int|
        0 <= k < types.len() ==> {
            &&& find_char(#[trigger] types[k], ':') is Some
            &&& forall|j: int|
                0 <= j < type_args(types[k]).len() ==> find_char(
                    trim(#[trigger] type_args(types[k])[j]),
                    ' ',
                ) is Some
        }
}

/// The enum line of a node kind.
pub open spec fn enum_line(base_name: Seq<char>, line: Seq<char>) -> Seq<char> {
    "    "@ + type_base(line) + "("@ + type_base(line) + base_name + ".\n"@
}

/// The enum lines of the node kinds, in order.
pub open spec fn enum_lines(base_name: Seq<char>, types: Seq<Seq<char>>) -> Seq<char>
    decreases types.len(),
{
    if types.len() == 0 {
        Seq::empty()
    } else {
        enum_lines(base_name, types.drop_last()) + enum_line(base_name, types.last())
    }
}

/// The lines of the fields of a struct, each `NAME: TYPE,`.
pub open spec fn field_lines(args: Seq<Seq<char>>) -> Seq<char>
    decreases args.len(),
{
    if args.len() == 0 {
        Seq::empty()
    } else {
        field_lines(args.drop_last()) + "    "@ + field_decl(args.last()) + ",\n"@
    }
}

/// The struct of a node kind.
pub open spec fn struct_block(base_name: Seq<char>, line: Seq<char>) -> Seq<char> {
    "pub struct "@ + type_base(line) + base_name + " {\n"@ + field_lines(type_args(line))
        + "}\n\n"@
}

/// The structs of the node kinds, in order.
pub open spec fn struct_blocks(base_name: Seq<char>, types: Seq<Seq<char>>) -> Seq<char>
    decreases types.len(),
{
    if types.len() == 0 {
        Seq::empty()
    } else {
        struct_blocks(base_name, types.drop_last()) + struct_block(base_name, types.last())
    }
}

/// The visitor method of a node kind.
pub open spec fn visitor_line(base_name: Seq<char>, line: Seq<char>) -> Seq<char> {
    "    fn visit_"@ + lowercase_of(type_base(line)) + "_"@ + lowercase_of(type_base(line) + base_name)
        + "(&self, expr: &"@ + lowercase_of(type_base(line) + base_name)
        + ")-> Result<T, Error);\n"@
}

/// The visitor methods of the node kinds, in order.
pub open spec fn visitor_lines(base_name: Seq<char>, types: Seq<Seq<char>>) -> Seq<char>
    decreases types.len(),
{
    if types.len() == 0 {
        Seq::empty()
    } else {
        visitor_lines(base_name, types.drop_last()) + visitor_line(base_name, types.last())
    }
}

/// The `accept` method of a node kind, after the closing brace of what
/// came before.
pub open spec fn accept_block(base_name: Seq<char>, line: Seq<char>) -> Seq<char> {
    "}\n\n"@ + "impl "@ + type_base(line) + base_name + " {\n"@
        + "    fn accept<T>(&self,visitor:: &dyn "@ + base_name
        + "Visitor<T>) -> Result<T, LoxError> {\n"@ + "    visitor.visit_"@ + lowercase_of(
        type_base(line),
    ) + "_"@ + lowercase_of(base_name) + "(self)\n"@ + "    }\n"@ + "}\n"@
}

/// The `accept` methods of the node kinds, in order.
pub open spec fn accept_blocks(base_name: Seq<char>, types: Seq<Seq<char>>) -> Seq<char>
    decreases types.len(),
{
    if types.len() == 0 {
        Seq::empty()
    } else {
        accept_blocks(base_name, types.drop_last()) + accept_block(base_name, types.last())
    }
}

/// The source text of the syntax tree type `base_name`: the imports, the
/// enum of its node kinds, a struct for each, the visitor trait, and an
/// `accept` method for each.
pub open spec fn source_text(base_name: Seq<char>, types: Seq<Seq<char>>) -> Seq<char> {
    "use crate::error::*;\n"@ + "use crate::entities::*;\n"@ + "\npub enum "@ + base_name + " {\n"@
        + enum_lines(base_name, types) + "}\n"@ + struct_blocks(base_name, types)
        + "pub trait ExprVisitor<T> {\n"@ + visitor_lines(base_name, types) + accept_blocks(
        base_name,
        types,
    )
}

/// The progress lines written while the fields are split: one for each
/// field description of each line, in order.
pub open spec fn splitting_lines(types: Seq<Seq<char>>) -> Seq<Seq<char>>
    decreases types.len(),
{
    if types.len() == 0 {
        Seq::empty()
    } else {
        splitting_lines(types.drop_last()) + type_args(types.last()).map_values(
            |a: Seq<char>| "splitting '"@ + a,
        )
    }
}

/// The source of a syntax tree type: the file it is written to, its text,
/// and the progress lines written on the way.
#[derive(Debug)]
pub struct AstSource {
    pub path: String,
    pub text: String,
    pub splitting: Vec<String>,
}

/// One node kind, worked out from its description line.
struct SourceType {
    base: String,
    class: String,
    base_lower: String,
    class_lower: String,
    args: Vec<String>,
    fields: Vec<String>,
}

/// The pieces of `v[from..]` between commas, as they are.
fn split_raw(v: &Vec<char>, from: usize) -> (r: Vec<String>)
    requires
        from <= v@.len(),
    ensures
        strings_view(r@) == split_on(v@.skip(from as int), ','),
    decreases v@.len() - from,
{
    let ghost s = v@.skip(from as int);
    proof {
        lemma_find_char_bound(s, ',');
    }
    let _n = v.len();
    let found = find_from(v, from, ',');
    match found {
        Some(i) => {
            proof {
                assert(s == v@.skip(from as int));
                assert(find_char(s, ',') is Some);
                let k = find_char(s, ',')->Some_0;
                assert(0 <= k < s.len());
                assert(s.len() == v@.len() - from);
                assert(i == from + k);
                assert(s.take(k) =~= v@.subrange(from as int, i as int));
                assert(s.skip(k + 1) =~= v@.skip(i + 1));
            }
            let first = string_of_range(v, from, i);
            let mut rest = split_raw(v, i + 1);
            let ghost rest_v = rest@;
            let mut out: Vec<String> = Vec::new();
            out.push(first);
            out.append(&mut rest);
            assert(strings_view(out@) =~= seq![first@] + strings_view(rest_v));
            out
        },
        None => {
            let only = string_of_range(v, from, v.len());
            let mut out: Vec<String> = Vec::new();
            out.push(only);
            assert(s =~= v@.subrange(from as int, v@.len() as int));
            assert(strings_view(out@) =~= split_on(s, ','));
            out
        },
    }
}

/// `NAME: TYPE` for the field description `arg` (`TYPE NAME`).
fn field_of(arg: &str) -> (r: String)
    requires
        find_char(trim(arg@), ' ') is Some,
    ensures
        r@ == field_decl(arg@),
{
    let cv = chars_of(arg);
    assert(cv@.subrange(0, cv@.len() as int) =~= cv@);
    let a = trimmed(&cv, 0, cv.len());
    let tv = chars_of(a.as_str());
    assert(tv@.skip(0) =~= tv@);
    proof {
        lemma_find_char_bound(tv@, ' ');
    }
    let _n = tv.len();
    let i = match find_from(&tv, 0, ' ') {
        Some(i) => i,
        None => {
            proof {
                assert(false);
            }
            0
        },
    };
    let mut r = string_of_range(&tv, i + 1, tv.len());
    r.append(": ");
    r.append(string_of_range(&tv, 0, i).as_str());
    assert(tv@.subrange(i + 1, tv@.len() as int) =~= tv@.skip(i + 1));
    assert(tv@.subrange(0, i as int) =~= tv@.take(i as int));
    r
}

/// Works out the node kind that `line` describes.
fn source_type(base_name: &str, line: &str) -> (r: SourceType)
    requires
        find_char(line@, ':') is Some,
        forall|j: int|
            0 <= j < type_args(line@).len() ==> find_char(trim(#[trigger] type_args(line@)[j]), ' ')
                is Some,
    ensures
        r.base@ == type_base(line@),
        r.class@ == type_base(line@) + base_name@,
        r.base_lower@ == lowercase_of(type_base(line@)),
        r.class_lower@ == lowercase_of(type_base(line@) + base_name@),
        strings_view(r.args@) == type_args(line@),
        strings_view(r.fields@) == type_args(line@).map_values(|a: Seq<char>| field_decl(a)),
{
    let v = chars_of(line);
    proof {
        lemma_find_char_bound(v@, ':');
        assert(v@.skip(0) =~= v@);
    }
    let _n = v.len();
    let i = match find_from(&v, 0, ':') {
        Some(i) => i,
        None => {
            proof {
                assert(false);
            }
            0
        },
    };
    assert(v@.subrange(0, i as int) =~= line@.take(i as int));
    let base = trimmed(&v, 0, i);
    let mut class = base.clone();
    class.append(base_name);
    let base_lower = lowercase(base.as_str());
    let class_lower = lowercase(class.as_str());
    let args = split_raw(&v, i + 1);
    let ghost av = strings_view(args@);
    let mut fields: Vec<String> = Vec::new();
    let mut k: usize = 0;
    while k < args.len()
        invariant
            k <= args@.len(),
            av == strings_view(args@),
            av == type_args(line@),
            forall|j: int|
                0 <= j < type_args(line@).len() ==> find_char(
                    trim(#[trigger] type_args(line@)[j]),
                    ' ',
                ) is Some,
            strings_view(fields@) == av.take(k as int).map_values(|a: Seq<char>| field_decl(a)),
        decreases args@.len() - k,
    {
        assert(av[k as int] == args@[k as int]@);
        let f = field_of(args[k].as_str());
        let ghost before = fields@;
        fields.push(f);
        assert(strings_view(fields@) =~= strings_view(before).push(f@));
        assert(av.take(k + 1).map_values(|a: Seq<char>| field_decl(a)) =~= av.take(k as int).map_values(
            |a: Seq<char>| field_decl(a),
        ).push(field_decl(av[k as int])));
        k = k + 1;
    }
    assert(av.take(k as int) =~= av);
    SourceType { base, class, base_lower, class_lower, args, fields }
}


/// What [`source_type`] gives for `line`.
spec fn type_ok(st: SourceType, base_name: Seq<char>, line: Seq<char>) -> bool {
    &&& st.base@ == type_base(line)
    &&& st.class@ == type_base(line) + base_name
    &&& st.base_lower@ == lowercase_of(type_base(line))
    &&& st.class_lower@ == lowercase_of(type_base(line) + base_name)
    &&& strings_view(st.args@) == type_args(line)
    &&& strings_view(st.fields@) == type_args(line).map_values(|a: Seq<char>| field_decl(a))
}

/// The `accept` block of one node kind.
fn accept_text(b: &str, b_lower: &str, st: &SourceType, Ghost(line): Ghost<Seq<char>>) -> (r: String)
    requires
        type_ok(*st, b@, line),
        b_lower@ == lowercase_of(b@),
    ensures
        r@ == accept_block(b@, line),
{
    let mut text = String::from_str("}\n\n");
    text.append("impl ");
    text.append(st.class.as_str());
    text.append(" {\n");
    text.append("    fn accept<T>(&self,visitor:: &dyn ");
    text.append(b);
    text.append("Visitor<T>) -> Result<T, LoxError> {\n");
    text.append("    visitor.visit_");
    text.append(st.base_lower.as_str());
    text.append("_");
    text.append(b_lower);
    text.append("(self)\n");
    text.append("    }\n");
    text.append("}\n");
    text
}

/// Whether a description can be written out (see [`describable`]).
pub fn is_describable(types: &[&str]) -> (r: bool)
    ensures
        r == describable(types@.map_values(|x: &str| x@)),
{
    let ghost tv = types@.map_values(|x: &str| x@);
    let mut k: usize = 0;
    while k < types.len()
        invariant
            k <= types@.len(),
            tv == types@.map_values(|x: &str| x@),
            forall|m: int|
                0 <= m < k ==> {
                    &&& find_char(#[trigger] tv[m], ':') is Some
                    &&& forall|j: int|
                        0 <= j < type_args(tv[m]).len() ==> find_char(
                            trim(#[trigger] type_args(tv[m])[j]),
                            ' ',
                        ) is Some
                },
        decreases types@.len() - k,
    {
        let v = chars_of(types[k]);
        let _n = v.len();
        proof {
            lemma_find_char_bound(v@, ':');
            assert(v@.skip(0) =~= v@);
            assert(tv[k as int] == v@);
        }
        let i = match find_from(&v, 0, ':') {
            Some(i) => i,
            None => {
                proof {
                    assert(find_char(tv[k as int], ':') is None);
                }
                return false;
            },
        };
        let args = split_raw(&v, i + 1);
        proof {
            assert(v@.skip(i + 1) == tv[k as int].skip(find_char(tv[k as int], ':')->Some_0 + 1));
        }
        let mut j: usize = 0;
        while j < args.len()
            invariant
                k < types@.len(),
                tv == types@.map_values(|x: &str| x@),
                j <= args@.len(),
                strings_view(args@) == type_args(tv[k as int]),
                forall|m: int|
                    0 <= m < j ==> find_char(trim(#[trigger] type_args(tv[k as int])[m]), ' ')
                        is Some,
            decreases args@.len() - j,
        {
            let cv = chars_of(args[j].as_str());
            assert(cv@.subrange(0, cv@.len() as int) =~= cv@);
            let a = trimmed(&cv, 0, cv.len());
            let tw = chars_of(a.as_str());
            assert(tw@.skip(0) =~= tw@);
            assert(type_args(tv[k as int])[j as int] == args@[j as int]@);
            proof {
                lemma_find_char_bound(tw@, ' ');
            }
            if find_from(&tw, 0, ' ').is_none() {
                proof {
                    assert(find_char(trim(type_args(tv[k as int])[j as int]), ' ') is None);
                }
                return false;
            }
            j = j + 1;
        }
        k = k + 1;
    }
    true
}

/// The source of the syntax tree type `base_name` from the description
/// `types`, to be written under `output_dir`: the file `base_name` in small
/// letters with `.rs`, its text (see [`source_text`]), and a progress line
/// for each field description (see [`splitting_lines`]).
pub fn ast_source(output_dir: &str, base_name: &str, types: &[&str]) -> (r: AstSource)
    requires
        describable(types@.map_values(|x: &str| x@)),
    ensures
        r.path@ == output_dir@ + "/"@ + lowercase_of(base_name@) + ".rs"@,
        r.text@ == source_text(base_name@, types@.map_values(|x: &str| x@)),
        strings_view(r.splitting@) == splitting_lines(types@.map_values(|x: &str| x@)),
{
    let ghost tv = types@.map_values(|x: &str| x@);
    let b = base_name;
    let mut path = String::from_str(output_dir);
    path.append("/");
    path.append(lowercase(base_name).as_str());
    path.append(".rs");
    // The node kinds, and the progress lines.
    let mut sts: Vec<SourceType> = Vec::new();
    let mut splitting: Vec<String> = Vec::new();
    let mut i: usize = 0;
    while i < types.len()
        invariant
            i <= types@.len(),
            tv == types@.map_values(|x: &str| x@),
            describable(tv),
            sts@.len() == i,
            forall|m: int| 0 <= m < i ==> type_ok(#[trigger] sts@[m], b@, tv[m]),
            strings_view(splitting@) == splitting_lines(tv.take(i as int)),
        decreases types@.len() - i,
    {
        assert(tv[i as int] == types@[i as int]@);
        let st = source_type(b, types[i]);
        let ghost line = tv[i as int];
        let ghost before = strings_view(splitting@);
        let mut k: usize = 0;
        while k < st.args.len()
            invariant
                k <= st.args@.len(),
                strings_view(st.args@) == type_args(line),
                strings_view(splitting@) == before + type_args(line).take(k as int).map_values(
                    |a: Seq<char>| "splitting '"@ + a,
                ),
            decreases st.args@.len() - k,
        {
            let mut msg = String::from_str("splitting '");
            msg.append(st.args[k].as_str());
            let ghost prev = splitting@;
            splitting.push(msg);
            proof {
                assert(type_args(line)[k as int] == st.args@[k as int]@);
                assert(strings_view(splitting@) =~= strings_view(prev).push(msg@));
                assert(type_args(line).take(k + 1).map_values(|a: Seq<char>| "splitting '"@ + a)
                    =~= type_args(line).take(k as int).map_values(|a: Seq<char>| "splitting '"@ + a).push(
                    "splitting '"@ + type_args(line)[k as int],
                ));
            }
            k = k + 1;
        }
        proof {
            assert(type_args(line).take(k as int) =~= type_args(line));
            assert(tv.take(i + 1).drop_last() =~= tv.take(i as int));
            assert(tv.take(i + 1).last() == line);
        }
        sts.push(st);
        i = i + 1;
    }
    assert(tv.take(i as int) =~= tv);
    // The text.
    let mut text = String::from_str("use crate::error::*;\n");
    text.append("use crate::entities::*;\n");
    text.append("\npub enum ");
    text.append(b);
    text.append(" {\n");
    let ghost head = text@;
    let mut i: usize = 0;
    while i < sts.len()
        invariant
            i <= sts@.len(),
            sts@.len() == tv.len(),
            forall|m: int| 0 <= m < sts@.len() ==> type_ok(#[trigger] sts@[m], b@, tv[m]),
            text@ == head + enum_lines(b@, tv.take(i as int)),
        decreases sts@.len() - i,
    {
        let st = &sts[i];
        assert(type_ok(sts@[i as int], b@, tv[i as int]));
        text.append("    ");
        text.append(st.base.as_str());
        text.append("(");
        text.append(st.class.as_str());
        text.append(".\n");
        assert(tv.take(i + 1).drop_last() =~= tv.take(i as int));
        i = i + 1;
    }
    assert(tv.take(i as int) =~= tv);
    text.append("}\n");
    let ghost head = text@;
    let mut i: usize = 0;
    while i < sts.len()
        invariant
            i <= sts@.len(),
            sts@.len() == tv.len(),
            forall|m: int| 0 <= m < sts@.len() ==> type_ok(#[trigger] sts@[m], b@, tv[m]),
            text@ == head + struct_blocks(b@, tv.take(i as int)),
        decreases sts@.len() - i,
    {
        let st = &sts[i];
        assert(type_ok(sts@[i as int], b@, tv[i as int]));
        let ghost args = type_args(tv[i as int]);
        text.append("pub struct ");
        text.append(st.class.as_str());
        text.append(" {\n");
        let ghost mid = text@;
        assert(strings_view(st.fields@).len() == st.fields@.len());
        let mut k: usize = 0;
        while k < st.fields.len()
            invariant
                k <= st.fields@.len(),
                st.fields@.len() == args.len(),
                strings_view(st.fields@) == args.map_values(|a: Seq<char>| field_decl(a)),
                text@ == mid + field_lines(args.take(k as int)),
            decreases st.fields@.len() - k,
        {
            assert(strings_view(st.fields@)[k as int] == st.fields@[k as int]@);
            assert(args.map_values(|a: Seq<char>| field_decl(a))[k as int] == field_decl(args[k as int]));
            text.append("    ");
            text.append(st.fields[k].as_str());
            text.append(",\n");
            assert(args.take(k + 1).drop_last() =~= args.take(k as int));
            k = k + 1;
        }
        assert(args.take(k as int) =~= args);
        text.append("}\n\n");
        assert(tv.take(i + 1).drop_last() =~= tv.take(i as int));
        i = i + 1;
    }
    assert(tv.take(i as int) =~= tv);
    text.append("pub trait ExprVisitor<T> {\n");
    let ghost head = text@;
    let mut i: usize = 0;
    while i < sts.len()
        invariant
            i <= sts@.len(),
            sts@.len() == tv.len(),
            forall|m: int| 0 <= m < sts@.len() ==> type_ok(#[trigger] sts@[m], b@, tv[m]),
            text@ == head + visitor_lines(b@, tv.take(i as int)),
        decreases sts@.len() - i,
    {
        let st = &sts[i];
        assert(type_ok(sts@[i as int], b@, tv[i as int]));
        text.append("    fn visit_");
        text.append(st.base_lower.as_str());
        text.append("_");
        text.append(st.class_lower.as_str());
        text.append("(&self, expr: &");
        text.append(st.class_lower.as_str());
        text.append(")-> Result<T, Error);\n");
        assert(tv.take(i + 1).drop_last() =~= tv.take(i as int));
        i = i + 1;
    }
    assert(tv.take(i as int) =~= tv);
    let base_lower = lowercase(b);
    let ghost head = text@;
    let mut i: usize = 0;
    while i < sts.len()
        invariant
            i <= sts@.len(),
            sts@.len() == tv.len(),
            base_lower@ == lowercase_of(b@),
            forall|m: int| 0 <= m < sts@.len() ==> type_ok(#[trigger] sts@[m], b@, tv[m]),
            text@ == head + accept_blocks(b@, tv.take(i as int)),
        decreases sts@.len() - i,
    {
        assert(type_ok(sts@[i as int], b@, tv[i as int]));
        let piece = accept_text(b, base_lower.as_str(), &sts[i], Ghost(tv[i as int]));
        text.append(piece.as_str());
        assert(tv.take(i + 1).drop_last() =~= tv.take(i as int));
        i = i + 1;
    }
    assert(tv.take(i as int) =~= tv);
    AstSource { path, text, splitting }
}

} // verus!
