//! The source text of the visitor form of a syntax tree, from short
//! descriptions of its kinds of node: `Name: Type field, Type field`.

use crate::text::{chars_of, push_str, string_of, text_of};
use vstd::prelude::*;

verus! {

/// A field of a kind of node.
#[derive(Debug)]
pub struct Field {
    pub ty: String,
    pub name: String,
}

pub struct FieldView {
    pub ty: Seq<char>,
    pub name: Seq<char>,
}

impl View for Field {
    type V = FieldView;

    open spec fn view(&self) -> FieldView {
        FieldView { ty: self.ty@, name: self.name@ }
    }
}

/// A kind of node: its name and its fields.
#[derive(Debug)]
pub struct NodeType {
    pub name: String,
    pub fields: Vec<Field>,
}

pub struct NodeTypeView {
    pub name: Seq<char>,
    pub fields: Seq<FieldView>,
}

pub open spec fn field_views(fields: Seq<Field>) -> Seq<FieldView> {
    fields.map_values(|f: Field| f@)
}

impl View for NodeType {
    type V = NodeTypeView;

    open spec fn view(&self) -> NodeTypeView {
        NodeTypeView { name: self.name@, fields: field_views(self.fields@) }
    }
}

pub open spec fn type_views(types: Seq<NodeType>) -> Seq<NodeTypeView> {
    types.map_values(|t: NodeType| t@)
}

pub open spec fn blank(c: char) -> bool {
    c == ' ' || c == '\t' || c == '\n' || c == '\r'
}

/// The first place from `from` on where `c` stands, or the length.
pub open spec fn find(s: Seq<char>, c: char, from: int) -> int
    decreases s.len() - from,
{
    if 0 <= from < s.len() && s[from] != c {
        find(s, c, from + 1)
    } else {
        from
    }
}

/// The place behind the last `c` before `upto`, or 0.
pub open spec fn behind_last(s: Seq<char>, c: char, upto: int) -> int
    decreases upto,
{
    if 0 < upto <= s.len() && s[upto - 1] != c {
        behind_last(s, c, upto - 1)
    } else {
        upto
    }
}

/// The first place from `from` up to `upto` that is not blank.
pub open spec fn first_mark(s: Seq<char>, from: int, upto: int) -> int
    decreases upto - from,
{
    if 0 <= from < upto <= s.len() && blank(s[from]) {
        first_mark(s, from + 1, upto)
    } else {
        from
    }
}

/// The place behind the last character before `upto`, down to `from`,
/// that is not blank.
pub open spec fn last_mark(s: Seq<char>, from: int, upto: int) -> int
    decreases upto - from,
{
    if 0 <= from < upto <= s.len() && blank(s[upto - 1]) {
        last_mark(s, from, upto - 1)
    } else {
        upto
    }
}

/// `s[from..upto]` without the blanks at its ends.
pub open spec fn trimmed(s: Seq<char>, from: int, upto: int) -> Seq<char> {
    let start = first_mark(s, from, upto);
    s.subrange(start, last_mark(s, start, upto))
}

/// The ASCII letter in lower case.
pub open spec fn lower(c: char) -> char {
    if 'A' <= c && c <= 'Z' {
        ((c as u8) + 32) as char
    } else {
        c
    }
}

pub open spec fn lowered(s: Seq<char>) -> Seq<char> {
    s.map_values(|c: char| lower(c))
}

/// The field that `s[from..upto]` describes: a type, a blank, a name.
pub open spec fn field_of(s: Seq<char>, from: int, upto: int) -> Option<FieldView> {
    let start = first_mark(s, from, upto);
    let end = last_mark(s, start, upto);
    let cut = behind_last(s.subrange(0, end), ' ', end);
    if cut > start {
        Some(FieldView { ty: trimmed(s, start, cut - 1), name: trimmed(s, cut, end) })
    } else {
        None
    }
}

/// The fields that `s[from..upto]` describes, with commas between them.
pub open spec fn fields_of(s: Seq<char>, from: int, upto: int) -> Option<Seq<FieldView>>
    decreases upto - from,
{
    let comma = find(s.subrange(0, upto), ',', from);
    match field_of(s, from, comma) {
        Some(first) => if from <= comma < upto <= s.len() {
            match fields_of(s, comma + 1, upto) {
                Some(rest) => Some(seq![first] + rest),
                None => None,
            }
        } else {
            Some(seq![first])
        },
        None => None,
    }
}

/// The kind of node that a description tells of: the name before the
/// first colon, the fields behind it, up to a second colon if there is one.
pub open spec fn node_type_of(s: Seq<char>) -> Option<NodeTypeView> {
    let colon = find(s, ':', 0);
    if colon >= s.len() {
        None
    } else {
        let end = find(s, ':', colon + 1);
        match fields_of(s, colon + 1, end) {
            Some(fields) => Some(NodeTypeView { name: trimmed(s, 0, colon), fields }),
            None => None,
        }
    }
}

/// The name of the method of the visitor for a kind of node.
pub open spec fn method_name(base: Seq<char>, name: Seq<char>) -> Seq<char> {
    "visit_"@ + lowered(name) + "_"@ + lowered(base)
}

/// The declaration of the trait of the nodes.
pub open spec fn trait_text(base: Seq<char>) -> Seq<char> {
    "use crate::token::Token;\n\npub trait "@ + base
        + ": std::fmt::Debug {\n\tfn accept<R>(&self, visitor: &impl Visitor<R>) -> R\n\twhere\n\t\tSelf: Sized;\n}\n\n"@
}

/// One method of the visitor.
pub open spec fn method_text(base: Seq<char>, name: Seq<char>) -> Seq<char> {
    "\tfn "@ + method_name(base, name) + "(&self, "@ + lowered(base) + ": &"@ + name + ") -> R;\n"@
}

/// The methods of the visitor for the kinds of node from `from` on.
pub open spec fn methods_text(base: Seq<char>, types: Seq<NodeTypeView>, from: int) -> Seq<char>
    decreases types.len() - from,
{
    if 0 <= from < types.len() {
        method_text(base, types[from].name) + methods_text(base, types, from + 1)
    } else {
        Seq::empty()
    }
}

/// The declaration of the visitor.
pub open spec fn visitor_text(base: Seq<char>, types: Seq<NodeTypeView>) -> Seq<char> {
    "pub trait Visitor<R> {\n"@ + methods_text(base, types, 0) + "}\n\n"@
}

/// The fields of a struct from `from` on, one on each line.
pub open spec fn fields_text(fields: Seq<FieldView>, from: int) -> Seq<char>
    decreases fields.len() - from,
{
    if 0 <= from < fields.len() {
        "\tpub "@ + fields[from].name + ": "@ + fields[from].ty + ",\n"@ + fields_text(
            fields,
            from + 1,
        )
    } else {
        Seq::empty()
    }
}

/// The struct of a kind of node, and its impl of the trait of the nodes.
pub open spec fn type_text(base: Seq<char>, ty: NodeTypeView) -> Seq<char> {
    "#[derive(Debug)]\npub struct "@ + ty.name + " {\n"@ + fields_text(ty.fields, 0)
        + "}\n\nimpl "@ + base + " for "@ + ty.name
        + " {\n\tfn accept<R>(&self, visitor: &impl Visitor<R>) -> R {\n\t\tvisitor."@
        + method_name(base, ty.name) + "(self)\n\t}\n}\n\n"@
}

/// The structs of the kinds of node from `from` on.
pub open spec fn types_text(base: Seq<char>, types: Seq<NodeTypeView>, from: int) -> Seq<char>
    decreases types.len() - from,
{
    if 0 <= from < types.len() {
        type_text(base, types[from]) + types_text(base, types, from + 1)
    } else {
        Seq::empty()
    }
}

/// The whole source text: the trait, the visitor, the structs.
pub open spec fn ast_text(base: Seq<char>, types: Seq<NodeTypeView>) -> Seq<char> {
    trait_text(base) + visitor_text(base, types) + types_text(base, types, 0)
}

/// The kinds of node that the descriptions from `from` on tell of.
pub open spec fn node_types_of(descriptions: Seq<Seq<char>>, from: int) -> Option<
    Seq<NodeTypeView>,
>
    decreases descriptions.len() - from,
{
    if 0 <= from < descriptions.len() {
        match node_type_of(descriptions[from]) {
            Some(first) => match node_types_of(descriptions, from + 1) {
                Some(rest) => Some(seq![first] + rest),
                None => None,
            },
            None => None,
        }
    } else {
        Some(Seq::empty())
    }
}

/// The name of the file that the source text goes to.
pub open spec fn file_name_of(base: Seq<char>) -> Seq<char> {
    lowered(base) + ".rs"@
}

fn is_blank(c: char) -> (r: bool)
    ensures
        r == blank(c),
{
    c == ' ' || c == '\t' || c == '\n' || c == '\r'
}

fn to_lower(c: char) -> (r: char)
    ensures
        r == lower(c),
{
    match c {
        'A' => 'a',
        'B' => 'b',
        'C' => 'c',
        'D' => 'd',
        'E' => 'e',
        'F' => 'f',
        'G' => 'g',
        'H' => 'h',
        'I' => 'i',
        'J' => 'j',
        'K' => 'k',
        'L' => 'l',
        'M' => 'm',
        'N' => 'n',
        'O' => 'o',
        'P' => 'p',
        'Q' => 'q',
        'R' => 'r',
        'S' => 's',
        'T' => 't',
        'U' => 'u',
        'V' => 'v',
        'W' => 'w',
        'X' => 'x',
        'Y' => 'y',
        'Z' => 'z',
        _ => c,
    }
}

fn push_lowered(out: &mut Vec<char>, s: &str)
    ensures
        final(out)@ == old(out)@ + lowered(s@),
{
    let chars = chars_of(s);
    let mut i: usize = 0;
    assert(out@ =~= old(out)@ + lowered(chars@.subrange(0, 0)));
    while i < chars.len()
        invariant
            i <= chars.len(),
            chars@ == s@,
            out@ == old(out)@ + lowered(chars@.subrange(0, i as int)),
        decreases chars.len() - i,
    {
        out.push(to_lower(chars[i]));
        assert(out@ =~= old(out)@ + lowered(chars@.subrange(0, i as int + 1)));
        i += 1;
    }
    assert(chars@.subrange(0, chars.len() as int) =~= chars@);
}

fn find_from(s: &Vec<char>, c: char, from: usize, upto: usize) -> (r: usize)
    requires
        from <= upto <= s.len(),
    ensures
        r == find(s@.subrange(0, upto as int), c, from as int),
        from <= r <= upto,
{
    let mut i = from;
    while i < upto && s[i] != c
        invariant
            from <= i <= upto <= s.len(),
            find(s@.subrange(0, upto as int), c, i as int) == find(
                s@.subrange(0, upto as int),
                c,
                from as int,
            ),
        decreases upto - i,
    {
        i += 1;
    }
    i
}

fn find_behind_last(s: &Vec<char>, c: char, upto: usize) -> (r: usize)
    requires
        upto <= s.len(),
    ensures
        r == behind_last(s@.subrange(0, upto as int), c, upto as int),
        r <= upto,
{
    let mut i = upto;
    while i > 0 && s[i - 1] != c
        invariant
            i <= upto <= s.len(),
            behind_last(s@.subrange(0, upto as int), c, i as int) == behind_last(
                s@.subrange(0, upto as int),
                c,
                upto as int,
            ),
        decreases i,
    {
        i -= 1;
    }
    i
}

fn skip_blanks(s: &Vec<char>, from: usize, upto: usize) -> (r: usize)
    requires
        upto <= s.len(),
    ensures
        r == first_mark(s@, from as int, upto as int),
        from <= r,
        from <= upto ==> r <= upto,
{
    let mut i = from;
    while i < upto && is_blank(s[i])
        invariant
            from <= i,
            upto <= s.len(),
            from <= upto ==> i <= upto,
            first_mark(s@, i as int, upto as int) == first_mark(s@, from as int, upto as int),
        decreases upto - i,
    {
        i += 1;
    }
    i
}

fn drop_blanks(s: &Vec<char>, from: usize, upto: usize) -> (r: usize)
    requires
        upto <= s.len(),
    ensures
        r == last_mark(s@, from as int, upto as int),
        r <= upto,
        from <= upto ==> from <= r,
{
    let mut i = upto;
    while from < i && is_blank(s[i - 1])
        invariant
            i <= upto <= s.len(),
            from <= upto ==> from <= i,
            last_mark(s@, from as int, i as int) == last_mark(s@, from as int, upto as int),
        decreases i,
    {
        i -= 1;
    }
    i
}

fn trim(s: &Vec<char>, from: usize, upto: usize) -> (r: String)
    requires
        from <= upto <= s.len(),
    ensures
        r@ == trimmed(s@, from as int, upto as int),
{
    let start = skip_blanks(s, from, upto);
    let end = drop_blanks(s, start, upto);
    text_of(s, start, end)
}

fn parse_field(s: &Vec<char>, from: usize, upto: usize) -> (r: Option<Field>)
    requires
        upto <= s.len(),
    ensures
        match r {
            Some(f) => field_of(s@, from as int, upto as int) == Some(f@),
            None => field_of(s@, from as int, upto as int).is_none(),
        },
{
    let start = skip_blanks(s, from, upto);
    let end = drop_blanks(s, start, upto);
    let cut = find_behind_last(s, ' ', end);
    if cut > start {
        Some(Field { ty: trim(s, start, cut - 1), name: trim(s, cut, end) })
    } else {
        None
    }
}

/// Fields read so far, in front of what the rest of the text describes.
pub open spec fn with_fields(read: Seq<FieldView>, rest: Option<Seq<FieldView>>) -> Option<
    Seq<FieldView>,
> {
    match rest {
        Some(more) => Some(read + more),
        None => None,
    }
}

fn parse_fields(s: &Vec<char>, from: usize, upto: usize) -> (r: Option<Vec<Field>>)
    requires
        from <= upto <= s.len(),
    ensures
        match r {
            Some(fields) => fields_of(s@, from as int, upto as int) == Some(field_views(fields@)),
            None => fields_of(s@, from as int, upto as int).is_none(),
        },
{
    let mut fields: Vec<Field> = Vec::new();
    let mut at = from;
    assert(field_views(fields@) =~= Seq::empty());
    loop
        invariant
            from <= at <= upto <= s.len(),
            with_fields(field_views(fields@), fields_of(s@, at as int, upto as int)) == fields_of(
                s@,
                from as int,
                upto as int,
            ),
        decreases upto - at,
    {
        let comma = find_from(s, ',', at, upto);
        let ghost before = field_views(fields@);
        match parse_field(s, at, comma) {
            Some(field) => {
                fields.push(field);
                assert(field_views(fields@) =~= before.push(field@));
                if comma < upto {
                    proof {
                        match fields_of(s@, comma + 1, upto as int) {
                            Some(rest) => {
                                assert(before.push(field@) + rest =~= before + (seq![field@]
                                    + rest));
                            },
                            None => {},
                        }
                    }
                    at = comma + 1;
                } else {
                    assert(before.push(field@) =~= before + seq![field@]);
                    return Some(fields);
                }
            },
            None => {
                return None;
            },
        }
    }
}

/// The kind of node that a description tells of.
pub fn parse_type(description: &str) -> (r: Option<NodeType>)
    ensures
        match r {
            Some(ty) => node_type_of(description@) == Some(ty@),
            None => node_type_of(description@).is_none(),
        },
{
    let s = chars_of(description);
    assert(s@.subrange(0, s.len() as int) =~= s@);
    let colon = find_from(&s, ':', 0, s.len());
    if colon >= s.len() {
        return None;
    }
    let end = find_from(&s, ':', colon + 1, s.len());
    match parse_fields(&s, colon + 1, end) {
        Some(fields) => Some(NodeType { name: trim(&s, 0, colon), fields }),
        None => None,
    }
}

fn push_method_name(out: &mut Vec<char>, basename: &str, name: &str)
    ensures
        final(out)@ == old(out)@ + method_name(basename@, name@),
{
    push_str(out, "visit_");
    push_lowered(out, name);
    push_str(out, "_");
    push_lowered(out, basename);
    assert(out@ =~= old(out)@ + method_name(basename@, name@));
}

/// The declaration of the visitor: one method for each kind of node.
pub fn define_visitor(basename: &str, types: &Vec<NodeType>) -> (r: String)
    ensures
        r@ == visitor_text(basename@, type_views(types@)),
{
    let mut out: Vec<char> = Vec::new();
    push_str(&mut out, "pub trait Visitor<R> {\n");
    let ghost head = out@;
    let mut i: usize = 0;
    while i < types.len()
        invariant
            i <= types.len(),
            out@ + methods_text(basename@, type_views(types@), i as int) == head + methods_text(
                basename@,
                type_views(types@),
                0,
            ),
        decreases types.len() - i,
    {
        let ghost before = out@;
        push_str(&mut out, "\tfn ");
        push_method_name(&mut out, basename, types[i].name.as_str());
        push_str(&mut out, "(&self, ");
        push_lowered(&mut out, basename);
        push_str(&mut out, ": &");
        push_str(&mut out, types[i].name.as_str());
        push_str(&mut out, ") -> R;\n");
        assert(type_views(types@)[i as int].name == types@[i as int].name@);
        assert(out@ =~= before + method_text(basename@, types@[i as int].name@));
        assert(out@ + methods_text(basename@, type_views(types@), i + 1) =~= before
            + methods_text(basename@, type_views(types@), i as int));
        i += 1;
    }
    assert(out@ + Seq::<char>::empty() =~= out@);
    push_str(&mut out, "}\n\n");
    string_of(&out)
}

fn push_fields(out: &mut Vec<char>, fields: &Vec<Field>)
    ensures
        final(out)@ == old(out)@ + fields_text(field_views(fields@), 0),
{
    let mut i: usize = 0;
    while i < fields.len()
        invariant
            i <= fields.len(),
            out@ + fields_text(field_views(fields@), i as int) == old(out)@ + fields_text(
                field_views(fields@),
                0,
            ),
        decreases fields.len() - i,
    {
        let ghost before = out@;
        push_str(out, "\tpub ");
        push_str(out, fields[i].name.as_str());
        push_str(out, ": ");
        push_str(out, fields[i].ty.as_str());
        push_str(out, ",\n");
        assert(field_views(fields@)[i as int] == fields@[i as int]@);
        assert(out@ + fields_text(field_views(fields@), i + 1) =~= before + fields_text(
            field_views(fields@),
            i as int,
        ));
        i += 1;
    }
    assert(out@ + Seq::<char>::empty() =~= out@);
}

/// The struct of a kind of node, and its impl of the trait of the nodes.
pub fn define_type(basename: &str, ty: &NodeType) -> (r: String)
    ensures
        r@ == type_text(basename@, ty@),
{
    let mut out: Vec<char> = Vec::new();
    push_str(&mut out, "#[derive(Debug)]\npub struct ");
    push_str(&mut out, ty.name.as_str());
    push_str(&mut out, " {\n");
    push_fields(&mut out, &ty.fields);
    push_str(&mut out, "}\n\nimpl ");
    push_str(&mut out, basename);
    push_str(&mut out, " for ");
    push_str(&mut out, ty.name.as_str());
    push_str(
        &mut out,
        " {\n\tfn accept<R>(&self, visitor: &impl Visitor<R>) -> R {\n\t\tvisitor.",
    );
    push_method_name(&mut out, basename, ty.name.as_str());
    push_str(&mut out, "(self)\n\t}\n}\n\n");
    assert(out@ =~= type_text(basename@, ty@));
    string_of(&out)
}

/// The name of the file that the source text goes to.
pub fn file_name(basename: &str) -> (r: String)
    ensures
        r@ == file_name_of(basename@),
{
    let mut out: Vec<char> = Vec::new();
    push_lowered(&mut out, basename);
    push_str(&mut out, ".rs");
    assert(out@ =~= file_name_of(basename@));
    string_of(&out)
}

/// Kinds of node read so far, in front of what the rest describes.
pub open spec fn with_types(read: Seq<NodeTypeView>, rest: Option<Seq<NodeTypeView>>) -> Option<
    Seq<NodeTypeView>,
> {
    match rest {
        Some(more) => Some(read + more),
        None => None,
    }
}

pub open spec fn description_views(descriptions: Seq<String>) -> Seq<Seq<char>> {
    descriptions.map_values(|d: String| d@)
}

/// The whole source text for the kinds of node that the descriptions
/// tell of; nothing if one of them tells of none.
pub fn define_ast(basename: &str, descriptions: &Vec<String>) -> (r: Option<String>)
    ensures
        match node_types_of(description_views(descriptions@), 0) {
            Some(types) => r.is_some() && r.unwrap()@ == ast_text(basename@, types),
            None => r.is_none(),
        },
{
    let mut types: Vec<NodeType> = Vec::new();
    let mut i: usize = 0;
    let ghost all = description_views(descriptions@);
    assert(type_views(types@) =~= Seq::empty());
    while i < descriptions.len()
        invariant
            i <= descriptions.len(),
            all == description_views(descriptions@),
            with_types(type_views(types@), node_types_of(all, i as int)) == node_types_of(all, 0),
        decreases descriptions.len() - i,
    {
        let ghost before = type_views(types@);
        assert(all[i as int] == descriptions@[i as int]@);
        match parse_type(descriptions[i].as_str()) {
            Some(ty) => {
                types.push(ty);
                proof {
                    assert(type_views(types@) =~= before.push(ty@));
                    match node_types_of(all, i + 1) {
                        Some(rest) => {
                            assert(before.push(ty@) + rest =~= before + (seq![ty@] + rest));
                        },
                        None => {},
                    }
                }
            },
            None => {
                return None;
            },
        }
        i += 1;
    }
    assert(type_views(types@) + Seq::<NodeTypeView>::empty() =~= type_views(types@));
    let mut out: Vec<char> = Vec::new();
    push_str(&mut out, "use crate::token::Token;\n\npub trait ");
    push_str(&mut out, basename);
    push_str(
        &mut out,
        ": std::fmt::Debug {\n\tfn accept<R>(&self, visitor: &impl Visitor<R>) -> R\n\twhere\n\t\tSelf: Sized;\n}\n\n",
    );
    let visitor = define_visitor(basename, &types);
    push_str(&mut out, visitor.as_str());
    let ghost head = out@;
    assert(head =~= trait_text(basename@) + visitor_text(basename@, type_views(types@)));
    let mut j: usize = 0;
    while j < types.len()
        invariant
            j <= types.len(),
            out@ + types_text(basename@, type_views(types@), j as int) == head + types_text(
                basename@,
                type_views(types@),
                0,
            ),
        decreases types.len() - j,
    {
        let ghost before = out@;
        let text = define_type(basename, &types[j]);
        push_str(&mut out, text.as_str());
        assert(type_views(types@)[j as int] == types@[j as int]@);
        assert(out@ + types_text(basename@, type_views(types@), j + 1) =~= before + types_text(
            basename@,
            type_views(types@),
            j as int,
        ));
        j += 1;
    }
    assert(out@ + Seq::<char>::empty() =~= out@);
    Some(string_of(&out))
}

} // verus!
