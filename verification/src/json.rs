//! JSON documents, as far as the requests and replies of the GitHub API need
//! them. `serde_json` parses, renders and holds the documents; this module says
//! what is in them.

use crate::text::option_text;
use serde_json::Value;
use vstd::prelude::*;

verus! {

/// `serde_json::Value`, a JSON document.
#[verifier::external_type_specification]
#[verifier::external_body]
pub struct ExValue(serde_json::Value);

/// What stands at one place of a JSON document.
pub enum JsonNode {
    /// An object; its members stand at the places one name further down.
    Object,
    /// A string.
    Text(Seq<char>),
    /// A number that is an integer from 0 to `u64::MAX`.
    Count(u64),
    /// A boolean.
    Flag(bool),
    /// Null, any other number, or an array.
    Other,
}

/// The places of a document that member names lead to, each with what stands
/// there. The empty path is the document itself.
pub uninterp spec fn json_nodes(v: serde_json::Value) -> Map<Seq<Seq<char>>, JsonNode>;

/// What `serde_json` makes of a byte sequence: the places of the document, or the
/// message that says why it is none.
pub uninterp spec fn parsed_json(bytes: Seq<u8>) -> Result<
    Map<Seq<Seq<char>>, JsonNode>,
    Seq<char>,
>;

/// The bytes are a rendering of the document `nodes`.
pub open spec fn parses_to(bytes: Seq<u8>, nodes: Map<Seq<Seq<char>>, JsonNode>) -> bool {
    parsed_json(bytes) == Ok::<Map<Seq<Seq<char>>, JsonNode>, Seq<char>>(nodes)
}

/// The document `null`.
pub open spec fn null_document() -> Map<Seq<Seq<char>>, JsonNode> {
    Map::empty().insert(Seq::empty(), JsonNode::Other)
}

/// The document `{}`.
pub open spec fn empty_object() -> Map<Seq<Seq<char>>, JsonNode> {
    Map::empty().insert(Seq::empty(), JsonNode::Object)
}

/// The member `key` of a document: `null` if there is none.
pub open spec fn member_of(
    nodes: Map<Seq<Seq<char>>, JsonNode>,
    key: Seq<char>,
) -> Map<Seq<Seq<char>>, JsonNode> {
    if nodes.contains_key(seq![key]) {
        Map::new(
            |path: Seq<Seq<char>>| nodes.contains_key(seq![key] + path),
            |path: Seq<Seq<char>>| nodes[seq![key] + path],
        )
    } else {
        null_document()
    }
}

/// The string that a document is, if it is one.
pub open spec fn text_in(nodes: Map<Seq<Seq<char>>, JsonNode>) -> Option<Seq<char>> {
    if nodes.contains_key(Seq::empty()) {
        match nodes[Seq::empty()] {
            JsonNode::Text(s) => Some(s),
            _ => None,
        }
    } else {
        None
    }
}

/// The integer from 0 to `u64::MAX` that a document is, if it is one.
pub open spec fn count_in(nodes: Map<Seq<Seq<char>>, JsonNode>) -> Option<u64> {
    if nodes.contains_key(Seq::empty()) {
        match nodes[Seq::empty()] {
            JsonNode::Count(n) => Some(n),
            _ => None,
        }
    } else {
        None
    }
}

/// The boolean that a document is, if it is one.
pub open spec fn flag_in(nodes: Map<Seq<Seq<char>>, JsonNode>) -> Option<bool> {
    if nodes.contains_key(Seq::empty()) {
        match nodes[Seq::empty()] {
            JsonNode::Flag(b) => Some(b),
            _ => None,
        }
    } else {
        None
    }
}

/// The object `nodes` with its member `key` set to a string. Whatever stood at or
/// below that member before is gone.
pub open spec fn with_text(
    nodes: Map<Seq<Seq<char>>, JsonNode>,
    key: Seq<char>,
    text: Seq<char>,
) -> Map<Seq<Seq<char>>, JsonNode> {
    Map::new(
        |path: Seq<Seq<char>>|
            nodes.contains_key(path) && (path.len() > 0 ==> path[0] != key),
        |path: Seq<Seq<char>>| nodes[path],
    ).insert(seq![key], JsonNode::Text(text))
}

/// An object whose members are strings, all of them.
pub open spec fn is_text_object(nodes: Map<Seq<Seq<char>>, JsonNode>) -> bool {
    &&& nodes.contains_key(Seq::empty())
    &&& nodes[Seq::empty()] is Object
    &&& forall|path: Seq<Seq<char>>| #[trigger]
        nodes.contains_key(path) && path.len() > 0 ==> path.len() == 1 && nodes[path] is Text
}

/// The places of a parsed document, or the message that stands in its place.
pub open spec fn outcome_nodes(r: Result<Value, String>) -> Result<
    Map<Seq<Seq<char>>, JsonNode>,
    Seq<char>,
> {
    match r {
        Ok(v) => Ok(json_nodes(v)),
        Err(e) => Err(e@),
    }
}

/// `serde_json::from_slice`: the document that the bytes are, or the text of the
/// error that it gives. The grammar and the error texts are left to `serde_json`.
#[verifier::external_body]
pub(crate) fn parse_json(bytes: &[u8]) -> (r: Result<Value, String>)
    ensures
        outcome_nodes(r) == parsed_json(bytes@),
{
    serde_json::from_slice(bytes).map_err(|e: serde_json::Error| e.to_string())
}

/// The square brackets of `serde_json::Value` with a string between them: the
/// member of that name if the document is an object that has one, and the document
/// `null` in every other case.
#[verifier::external_body]
pub(crate) fn json_member<'a>(v: &'a Value, key: &str) -> (r: &'a Value)
    ensures
        json_nodes(*r) == member_of(json_nodes(*v), key@),
{
    &v[key]
}

/// `serde_json::Value::as_str`: the string that the document is, if it is one.
#[verifier::external_body]
pub(crate) fn json_text(v: &Value) -> (r: Option<String>)
    ensures
        option_text(r) == text_in(json_nodes(*v)),
{
    v.as_str().map(|s| s.to_string())
}

/// `serde_json::Value::as_u64`: the number that the document is, if it is an
/// integer that a `u64` can hold.
#[verifier::external_body]
pub(crate) fn json_count(v: &Value) -> (r: Option<u64>)
    ensures
        r == count_in(json_nodes(*v)),
{
    v.as_u64()
}

/// `serde_json::Value::as_bool`: the boolean that the document is, if it is one.
#[verifier::external_body]
pub(crate) fn json_flag(v: &Value) -> (r: Option<bool>)
    ensures
        r == flag_in(json_nodes(*v)),
{
    v.as_bool()
}

/// `serde_json::Map::new`, as a document: an object without members.
#[verifier::external_body]
pub(crate) fn json_object() -> (v: Value)
    ensures
        json_nodes(v) == empty_object(),
{
    Value::Object(serde_json::Map::new())
}

/// The square brackets of `serde_json::Value` on the left of an assignment, with a
/// string between them: the member of that name is added to the object, or
/// replaced. Only an object takes members here.
#[verifier::external_body]
pub(crate) fn set_json_text(v: &mut Value, key: &str, text: &str)
    requires
        json_nodes(*old(v)).contains_key(Seq::empty()),
        json_nodes(*old(v))[Seq::empty()] is Object,
    ensures
        json_nodes(*final(v)) == with_text(json_nodes(*old(v)), key@, text@),
{
    v[key] = Value::String(text.to_string());
}

/// `serde_json::to_vec_pretty`: bytes that parse to the very same document. That
/// is claimed of objects whose members are strings, which nest too little for the
/// parser's depth limit; the layout of the bytes is left to `serde_json`.
#[verifier::external_body]
pub(crate) fn render_json(v: &Value) -> (bytes: Vec<u8>)
    requires
        is_text_object(json_nodes(*v)),
    ensures
        parses_to(bytes@, json_nodes(*v)),
{
    serde_json::to_vec_pretty(v).expect("a JSON value renders")
}

// ---------------------------------------------------------------------------
// Documents that are read
// ---------------------------------------------------------------------------

/// The document that `bytes` hold, or `null` where they hold none.
pub open spec fn document_in(bytes: Seq<u8>) -> Map<Seq<Seq<char>>, JsonNode> {
    match parsed_json(bytes) {
        Ok(nodes) => nodes,
        Err(_) => null_document(),
    }
}

/// The string that the member `key` of a document is, if it is one.
pub open spec fn text_member(nodes: Map<Seq<Seq<char>>, JsonNode>, key: Seq<char>) -> Option<
    Seq<char>,
> {
    text_in(member_of(nodes, key))
}

/// Bytes that parse hold the document that they parse to, and bytes that do not parse hold
/// nothing that could be read.
pub proof fn what_parses_is_read(bytes: Seq<u8>, key: Seq<char>)
    ensures
        parsed_json(bytes) matches Ok(nodes) ==> document_in(bytes) == nodes,
        parsed_json(bytes) is Err ==> {
            &&& text_member(document_in(bytes), key) is None
            &&& flag_member(document_in(bytes), key) is None
            &&& text_in(document_in(bytes)) is None
        },
{
    assert(seq![key].len() == 1);
}

/// A member is read as a string, a count or a flag exactly where that is what stands at the
/// place that its name leads to, and a member of a member where the two names lead to.
pub proof fn members_are_read_in_their_places(
    nodes: Map<Seq<Seq<char>>, JsonNode>,
    key: Seq<char>,
    inner: Seq<char>,
)
    ensures
        ({
            let place = seq![key];
            &&& text_member(nodes, key) is Some <==> nodes.contains_key(place) && nodes[place] is Text
            &&& text_member(nodes, key) matches Some(text) ==> nodes[place] == JsonNode::Text(text)
            &&& flag_member(nodes, key) is Some <==> nodes.contains_key(place) && nodes[place] is Flag
            &&& flag_member(nodes, key) matches Some(flag) ==> nodes[place] == JsonNode::Flag(flag)
            &&& count_in(member_of(nodes, key)) is Some <==> nodes.contains_key(place)
                && nodes[place] is Count
            &&& count_in(member_of(nodes, key)) matches Some(n) ==> nodes[place]
                == JsonNode::Count(n)
        }),
        nodes.contains_key(seq![key]) ==> ({
            let place = seq![key, inner];
            let text = text_member(member_of(nodes, key), inner);
            &&& text is Some <==> nodes.contains_key(place) && nodes[place] is Text
            &&& text matches Some(t) ==> nodes[place] == JsonNode::Text(t)
        }),
        !nodes.contains_key(seq![key]) ==> text_member(member_of(nodes, key), inner) is None,
{
    assert(seq![key] + Seq::<Seq<char>>::empty() =~= seq![key]);
    assert(seq![inner] + Seq::<Seq<char>>::empty() =~= seq![inner]);
    assert(seq![key] + seq![inner] =~= seq![key, inner]);
    assert(seq![inner].len() == 1);
}

/// The string that the member `key` of a document is, if it is one.
pub(crate) fn text_member_of(v: &Value, key: &str) -> (r: Option<String>)
    ensures
        option_text(r) == text_member(json_nodes(*v), key@),
{
    json_text(json_member(v, key))
}

/// The boolean that the member `key` of a document is, if it is one.
pub open spec fn flag_member(nodes: Map<Seq<Seq<char>>, JsonNode>, key: Seq<char>) -> Option<
    bool,
> {
    flag_in(member_of(nodes, key))
}

// ---------------------------------------------------------------------------
// Objects that are written
// ---------------------------------------------------------------------------

/// A name and the text that goes with it: a member of an object, or a header of a
/// request.
pub struct Entry {
    pub name: String,
    pub value: String,
}

impl View for Entry {
    type V = (Seq<char>, Seq<char>);

    open spec fn view(&self) -> (Seq<char>, Seq<char>) {
        (self.name@, self.value@)
    }
}

/// The entries of a list, each as its name and its text.
pub open spec fn entries(list: Seq<Entry>) -> Seq<(Seq<char>, Seq<char>)> {
    list.map_values(|e: Entry| e@)
}

/// An entry with these two texts.
pub fn entry(name: &str, value: &str) -> (e: Entry)
    ensures
        e@ == (name@, value@),
{
    Entry { name: name.to_owned(), value: value.to_owned() }
}

/// The object with one string member for each entry; of two entries with the same
/// name the later one counts.
pub open spec fn object_of(list: Seq<(Seq<char>, Seq<char>)>) -> Map<Seq<Seq<char>>, JsonNode>
    decreases list.len(),
{
    if list.len() == 0 {
        empty_object()
    } else {
        with_text(object_of(list.drop_last()), list.last().0, list.last().1)
    }
}

proof fn lemma_object_of_is_text_object(list: Seq<(Seq<char>, Seq<char>)>)
    ensures
        is_text_object(object_of(list)),
    decreases list.len(),
{
    if list.len() > 0 {
        lemma_object_of_is_text_object(list.drop_last());
    }
}

/// The text of the last entry that has the name `key`.
pub open spec fn value_of(list: Seq<(Seq<char>, Seq<char>)>, key: Seq<char>) -> Option<Seq<char>>
    decreases list.len(),
{
    if list.len() == 0 {
        None
    } else if list.last().0 == key {
        Some(list.last().1)
    } else {
        value_of(list.drop_last(), key)
    }
}

/// What is written as a member of an object is what reading that member gives, and
/// reading a member that was not written gives nothing.
pub proof fn written_members_read_back(list: Seq<(Seq<char>, Seq<char>)>, key: Seq<char>)
    ensures
        text_member(object_of(list), key) == value_of(list, key),
    decreases list.len(),
{
    let nodes = object_of(list);
    let place = seq![key];
    assert(place + Seq::<Seq<char>>::empty() == place);
    assert(place.len() == 1 && place[0] == key);
    if list.len() > 0 {
        let rest = list.drop_last();
        let last = list.last();
        written_members_read_back(rest, key);
        if last.0 != key {
            assert(seq![last.0][0] != key);
            assert(nodes.contains_key(place) == object_of(rest).contains_key(place));
        }
    }
}

/// Nothing is written but what the list holds: an object has no members besides those that
/// are named in it.
pub proof fn objects_hold_nothing_else(
    list: Seq<(Seq<char>, Seq<char>)>,
    path: Seq<Seq<char>>,
)
    requires
        object_of(list).contains_key(path),
    ensures
        path.len() == 0 || exists|i: int|
            0 <= i < list.len() && path == seq![(#[trigger] list[i]).0],
    decreases list.len(),
{
    if list.len() > 0 {
        if path == seq![list.last().0] {
            assert(path == seq![list[list.len() - 1].0]);
        } else {
            let rest = list.drop_last();
            objects_hold_nothing_else(rest, path);
            if path.len() > 0 {
                let i = choose|i: int|
                    0 <= i < rest.len() && path == seq![(#[trigger] rest[i]).0];
                assert(list[i] == rest[i]);
            }
        }
    }
}

/// The bytes of the object with one string member for each entry.
pub fn render_object(list: &Vec<Entry>) -> (bytes: Vec<u8>)
    ensures
        parses_to(bytes@, object_of(entries(list@))),
{
    let mut v = json_object();
    let ghost all = entries(list@);
    assert(all.take(0) == Seq::<(Seq<char>, Seq<char>)>::empty());
    let mut i: usize = 0;
    while i < list.len()
        invariant
            i <= list@.len(),
            all == entries(list@),
            json_nodes(v) == object_of(all.take(i as int)),
        decreases list@.len() - i,
    {
        proof {
            lemma_object_of_is_text_object(all.take(i as int));
            assert(all.take(i + 1).drop_last() == all.take(i as int));
        }
        set_json_text(&mut v, list[i].name.as_str(), list[i].value.as_str());
        i += 1;
    }
    proof {
        assert(all.take(list@.len() as int) == all);
        lemma_object_of_is_text_object(all);
    }
    render_json(&v)
}

} // verus!
