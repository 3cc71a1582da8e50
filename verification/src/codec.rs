//! The wire format: which JSON document stands for which message.

use vstd::prelude::*;
use vstd::string::StringExecFns;
use serde_json::Value;
use crate::json::{
    array_value, borrowed_members_of, entries_of, items_of, members_of,
    object_value, parse, parsed, render, rendered, text_of, text_value, tree_of, trees_of,
    unsigned_of, unsigned_value, JsonTree,
};
use crate::topology::{texts, well_formed, with_entry, without_repeats, Topology, TopologyView};
use crate::types::{
    Body, BodyView, ErrorCode, Message, MessageView, RequestBody, RequestView, ResponseBody,
    ResponseView,
};
use crate::utils::DecodeError;

verus! {

/// The value of the first member with the given key.
pub open spec fn member(members: Seq<(Seq<char>, JsonTree)>, key: Seq<char>) -> Option<JsonTree>
    decreases members.len(),
{
    if members.len() == 0 {
        None
    } else if members[0].0 == key {
        Some(members[0].1)
    } else {
        member(members.drop_first(), key)
    }
}

/// The member of an object that is a string.
pub open spec fn text_member(members: Seq<(Seq<char>, JsonTree)>, key: Seq<char>) -> Option<
    Seq<char>,
> {
    match member(members, key) {
        Some(JsonTree::Text(text)) => Some(text),
        _ => None,
    }
}

/// The number that a tree holds, where it is one that a `usize` can hold.
pub open spec fn number_in(tree: JsonTree) -> Option<usize> {
    match tree {
        JsonTree::Unsigned(number) => if number <= usize::MAX {
            Some(number as usize)
        } else {
            None
        },
        _ => None,
    }
}

/// The member of an object that is a number which a `usize` can hold.
pub open spec fn number_member(members: Seq<(Seq<char>, JsonTree)>, key: Seq<char>) -> Option<
    usize,
> {
    match member(members, key) {
        Some(tree) => number_in(tree),
        None => None,
    }
}

/// The strings of an array that holds strings only.
pub open spec fn texts_in(tree: JsonTree) -> Option<Seq<Seq<char>>> {
    match tree {
        JsonTree::Array(items) => if forall|i: int|
            0 <= i < items.len() ==> (#[trigger] items[i]) is Text {
            Some(items.map_values(|item: JsonTree| item->Text_0))
        } else {
            None
        },
        _ => None,
    }
}

/// The numbers of an array that holds only numbers which a `usize` can hold.
pub open spec fn numbers_in(tree: JsonTree) -> Option<Seq<usize>> {
    match tree {
        JsonTree::Array(items) => if forall|i: int|
            0 <= i < items.len() ==> number_in(#[trigger] items[i]) is Some {
            Some(items.map_values(|item: JsonTree| number_in(item).unwrap()))
        } else {
            None
        },
        _ => None,
    }
}

/// The topology that the members of an object assign, read in their order:
/// each member gives one node its neighbors, each neighbor once.
pub open spec fn topology_of_members(members: Seq<(Seq<char>, JsonTree)>) -> Option<TopologyView>
    decreases members.len(),
{
    if members.len() == 0 {
        Some(Seq::empty())
    } else {
        match (topology_of_members(members.drop_last()), texts_in(members.last().1)) {
            (Some(before), Some(names)) => Some(
                with_entry(before, members.last().0, without_repeats(names)),
            ),
            _ => None,
        }
    }
}

/// The topology that a tree holds.
pub open spec fn topology_in(tree: JsonTree) -> Option<TopologyView> {
    match tree {
        JsonTree::Object(members) => topology_of_members(members),
        _ => None,
    }
}

/// The request that the members of a body spell out: the kind under `type`,
/// and the fields that the kind requires. Other members are passed over.
pub open spec fn request_of(members: Seq<(Seq<char>, JsonTree)>) -> Option<RequestView> {
    match text_member(members, "type"@) {
        Some(kind) => if kind == "init"@ {
            match (text_member(members, "node_id"@), member(members, "node_ids"@)) {
                (Some(node_id), Some(list)) => match texts_in(list) {
                    Some(node_ids) => Some(RequestView::Init { node_id, node_ids }),
                    None => None,
                },
                _ => None,
            }
        } else if kind == "echo"@ {
            match text_member(members, "echo"@) {
                Some(echo) => Some(RequestView::Echo { echo }),
                None => None,
            }
        } else if kind == "generate"@ {
            Some(RequestView::Generate)
        } else if kind == "broadcast"@ {
            match number_member(members, "message"@) {
                Some(message) => Some(RequestView::Broadcast { message }),
                None => None,
            }
        } else if kind == "topology"@ {
            match member(members, "topology"@) {
                Some(tree) => match topology_in(tree) {
                    Some(topology) => Some(RequestView::Topology { topology }),
                    None => None,
                },
                None => None,
            }
        } else if kind == "read"@ {
            Some(RequestView::Read)
        } else {
            None
        },
        None => None,
    }
}

/// The error code that a tree holds: one of the listed numbers.
pub open spec fn code_in(tree: JsonTree) -> Option<ErrorCode> {
    match tree {
        JsonTree::Unsigned(number) => if number <= u8::MAX {
            ErrorCode::of_number(number as u8)
        } else {
            None
        },
        _ => None,
    }
}

/// The response that the members of a body spell out.
pub open spec fn response_of(members: Seq<(Seq<char>, JsonTree)>) -> Option<ResponseView> {
    match text_member(members, "type"@) {
        Some(kind) => if kind == "init_ok"@ {
            Some(ResponseView::InitOk)
        } else if kind == "error"@ {
            match (member(members, "code"@), text_member(members, "text"@)) {
                (Some(number), Some(text)) => match code_in(number) {
                    Some(code) => Some(ResponseView::Error { code, text }),
                    None => None,
                },
                _ => None,
            }
        } else if kind == "echo_ok"@ {
            match text_member(members, "echo"@) {
                Some(echo) => Some(ResponseView::EchoOk { echo }),
                None => None,
            }
        } else if kind == "generate_ok"@ {
            match text_member(members, "id"@) {
                Some(id) => Some(ResponseView::GenerateOk { id }),
                None => None,
            }
        } else if kind == "broadcast_ok"@ {
            Some(ResponseView::BroadcastOk)
        } else if kind == "topology_ok"@ {
            Some(ResponseView::TopologyOk)
        } else if kind == "read_ok"@ {
            match member(members, "messages"@) {
                Some(list) => match numbers_in(list) {
                    Some(messages) => Some(ResponseView::ReadOk { messages }),
                    None => None,
                },
                None => None,
            }
        } else {
            None
        },
        None => None,
    }
}

/// The body that the members spell out: a request where they hold a
/// `msg_id` and a known request, else a response where they hold an
/// `in_reply_to` and a known response.
pub open spec fn body_of(members: Seq<(Seq<char>, JsonTree)>) -> Option<BodyView> {
    match (number_member(members, "msg_id"@), request_of(members)) {
        (Some(msg_id), Some(body)) => Some(BodyView::Request { msg_id, body }),
        _ => match (number_member(members, "in_reply_to"@), response_of(members)) {
            (Some(in_reply_to), Some(body)) => Some(BodyView::Response { in_reply_to, body }),
            _ => None,
        },
    }
}

/// The message that a document stands for: an object with the strings `src`
/// and `dest` and the object `body`. `None` where it stands for none.
pub open spec fn message_of_tree(tree: JsonTree) -> Option<MessageView> {
    match tree {
        JsonTree::Object(members) => match (
            text_member(members, "src"@),
            text_member(members, "dest"@),
            member(members, "body"@),
        ) {
            (Some(src), Some(dst), Some(JsonTree::Object(inner))) => match body_of(inner) {
                Some(body) => Some(MessageView { src, dst, body }),
                None => None,
            },
            _ => None,
        },
        _ => None,
    }
}

/// The array of the given strings.
pub open spec fn text_array(names: Seq<Seq<char>>) -> JsonTree {
    JsonTree::Array(names.map_values(|name: Seq<char>| JsonTree::Text(name)))
}

/// The array of the given numbers.
pub open spec fn number_array(numbers: Seq<usize>) -> JsonTree {
    JsonTree::Array(numbers.map_values(|number: usize| JsonTree::Unsigned(number as u64)))
}

/// The members that stand for a topology: one for each node, with the array
/// of its neighbors.
pub open spec fn topology_members(topology: TopologyView) -> Seq<(Seq<char>, JsonTree)> {
    topology.map_values(|entry: (Seq<char>, Seq<Seq<char>>)| (entry.0, text_array(entry.1)))
}

/// The members of a request body, in the order in which they are written.
pub open spec fn request_members(msg_id: usize, body: RequestView) -> Seq<(Seq<char>, JsonTree)> {
    let id = ("msg_id"@, JsonTree::Unsigned(msg_id as u64));
    match body {
        RequestView::Init { node_id, node_ids } => seq![
            id,
            ("type"@, JsonTree::Text("init"@)),
            ("node_id"@, JsonTree::Text(node_id)),
            ("node_ids"@, text_array(node_ids)),
        ],
        RequestView::Echo { echo } => seq![
            id,
            ("type"@, JsonTree::Text("echo"@)),
            ("echo"@, JsonTree::Text(echo)),
        ],
        RequestView::Generate => seq![id, ("type"@, JsonTree::Text("generate"@))],
        RequestView::Broadcast { message } => seq![
            id,
            ("type"@, JsonTree::Text("broadcast"@)),
            ("message"@, JsonTree::Unsigned(message as u64)),
        ],
        RequestView::Topology { topology } => seq![
            id,
            ("type"@, JsonTree::Text("topology"@)),
            ("topology"@, JsonTree::Object(topology_members(topology))),
        ],
        RequestView::Read => seq![id, ("type"@, JsonTree::Text("read"@))],
    }
}

/// The members of a response body, in the order in which they are written.
pub open spec fn response_members(in_reply_to: usize, body: ResponseView) -> Seq<
    (Seq<char>, JsonTree),
> {
    let id = ("in_reply_to"@, JsonTree::Unsigned(in_reply_to as u64));
    match body {
        ResponseView::InitOk => seq![id, ("type"@, JsonTree::Text("init_ok"@))],
        ResponseView::Error { code, text } => seq![
            id,
            ("type"@, JsonTree::Text("error"@)),
            ("code"@, JsonTree::Unsigned(code.number() as u64)),
            ("text"@, JsonTree::Text(text)),
        ],
        ResponseView::EchoOk { echo } => seq![
            id,
            ("type"@, JsonTree::Text("echo_ok"@)),
            ("echo"@, JsonTree::Text(echo)),
        ],
        ResponseView::GenerateOk { id: name } => seq![
            id,
            ("type"@, JsonTree::Text("generate_ok"@)),
            ("id"@, JsonTree::Text(name)),
        ],
        ResponseView::BroadcastOk => seq![id, ("type"@, JsonTree::Text("broadcast_ok"@))],
        ResponseView::TopologyOk => seq![id, ("type"@, JsonTree::Text("topology_ok"@))],
        ResponseView::ReadOk { messages } => seq![
            id,
            ("type"@, JsonTree::Text("read_ok"@)),
            ("messages"@, number_array(messages)),
        ],
    }
}

/// The members of a body.
pub open spec fn body_members(body: BodyView) -> Seq<(Seq<char>, JsonTree)> {
    match body {
        BodyView::Request { msg_id, body } => request_members(msg_id, body),
        BodyView::Response { in_reply_to, body } => response_members(in_reply_to, body),
    }
}

/// The document that stands for a message.
pub open spec fn message_tree(message: MessageView) -> JsonTree {
    JsonTree::Object(
        seq![
            ("src"@, JsonTree::Text(message.src)),
            ("dest"@, JsonTree::Text(message.dst)),
            ("body"@, JsonTree::Object(body_members(message.body))),
        ],
    )
}

/// A message whose topology, if it carries one, is well formed.
pub open spec fn sound(message: MessageView) -> bool {
    message.body matches BodyView::Request { body: RequestView::Topology { topology }, .. }
        ==> well_formed(topology)
}

/// A text of the given length that begins with the two given characters.
pub open spec fn begins(text: Seq<char>, len: nat, first: char, second: char) -> bool {
    &&& text.len() == len
    &&& text[0] == first
    &&& text[1] == second
}

/// The length and the first two characters of every key and every kind of
/// the wire format. No two keys agree in all three, and no two kinds.
pub proof fn lemma_names()
    ensures
        begins("src"@, 3, 's', 'r'),
        begins("dest"@, 4, 'd', 'e'),
        begins("body"@, 4, 'b', 'o'),
        begins("msg_id"@, 6, 'm', 's'),
        begins("in_reply_to"@, 11, 'i', 'n'),
        begins("type"@, 4, 't', 'y'),
        begins("node_id"@, 7, 'n', 'o'),
        begins("node_ids"@, 8, 'n', 'o'),
        begins("echo"@, 4, 'e', 'c'),
        begins("message"@, 7, 'm', 'e'),
        begins("topology"@, 8, 't', 'o'),
        begins("code"@, 4, 'c', 'o'),
        begins("text"@, 4, 't', 'e'),
        begins("id"@, 2, 'i', 'd'),
        begins("messages"@, 8, 'm', 'e'),
        begins("init"@, 4, 'i', 'n'),
        begins("generate"@, 8, 'g', 'e'),
        begins("broadcast"@, 9, 'b', 'r'),
        begins("read"@, 4, 'r', 'e'),
        begins("init_ok"@, 7, 'i', 'n'),
        begins("error"@, 5, 'e', 'r'),
        begins("echo_ok"@, 7, 'e', 'c'),
        begins("generate_ok"@, 11, 'g', 'e'),
        begins("broadcast_ok"@, 12, 'b', 'r'),
        begins("topology_ok"@, 11, 't', 'o'),
        begins("read_ok"@, 7, 'r', 'e'),
{
    reveal_strlit("src");
    reveal_strlit("dest");
    reveal_strlit("body");
    reveal_strlit("msg_id");
    reveal_strlit("in_reply_to");
    reveal_strlit("type");
    reveal_strlit("node_id");
    reveal_strlit("node_ids");
    reveal_strlit("echo");
    reveal_strlit("message");
    reveal_strlit("topology");
    reveal_strlit("code");
    reveal_strlit("text");
    reveal_strlit("id");
    reveal_strlit("messages");
    reveal_strlit("init");
    reveal_strlit("generate");
    reveal_strlit("broadcast");
    reveal_strlit("read");
    reveal_strlit("init_ok");
    reveal_strlit("error");
    reveal_strlit("echo_ok");
    reveal_strlit("generate_ok");
    reveal_strlit("broadcast_ok");
    reveal_strlit("topology_ok");
    reveal_strlit("read_ok");
}

/// The member with a key is the one at the first place where the key
/// stands, and there is none where it stands nowhere.
pub proof fn lemma_member(members: Seq<(Seq<char>, JsonTree)>, key: Seq<char>, at: int)
    requires
        0 <= at <= members.len(),
        forall|i: int| 0 <= i < at ==> (#[trigger] members[i]).0 != key,
        at < members.len() ==> members[at].0 == key,
    ensures
        at < members.len() ==> member(members, key) == Some(members[at].1),
        at == members.len() ==> member(members, key) is None,
    decreases members.len(),
{
    if members.len() > 0 && at > 0 {
        let rest = members.drop_first();
        assert(members[0].0 != key);
        assert forall|i: int| 0 <= i < at - 1 implies (#[trigger] rest[i]).0 != key by {
            assert(rest[i] == members[i + 1]);
        }
        lemma_member(rest, key, at - 1);
    }
}

/// An array of strings is read back as those strings.
pub proof fn lemma_text_array(names: Seq<Seq<char>>)
    ensures
        texts_in(text_array(names)) == Some(names),
{
    let items = names.map_values(|name: Seq<char>| JsonTree::Text(name));
    assert(items.map_values(|item: JsonTree| item->Text_0) =~= names);
}

/// An array of numbers is read back as those numbers.
pub proof fn lemma_number_array(numbers: Seq<usize>)
    ensures
        numbers_in(number_array(numbers)) == Some(numbers),
{
    let items = numbers.map_values(|number: usize| JsonTree::Unsigned(number as u64));
    assert forall|i: int| 0 <= i < items.len() implies number_in(#[trigger] items[i]) == Some(
        numbers[i],
    ) by {}
    assert(items.map_values(|item: JsonTree| number_in(item).unwrap()) =~= numbers);
}

/// The members that stand for a well-formed topology are read back as it.
pub proof fn lemma_topology_members(topology: TopologyView)
    requires
        well_formed(topology),
    ensures
        topology_of_members(topology_members(topology)) == Some(topology),
    decreases topology.len(),
{
    let members = topology_members(topology);
    if topology.len() > 0 {
        let front = topology.drop_last();
        assert(members.drop_last() =~= topology_members(front));
        lemma_topology_members(front);
        let last = topology.last();
        lemma_text_array(last.1);
        crate::topology::lemma_without_repeats_fixed(last.1);
        assert forall|i: int| 0 <= i < front.len() implies (#[trigger] front[i]).0 != last.0 by {
            assert(topology[i].0 != topology[topology.len() - 1].0);
        }
        crate::topology::lemma_with_entry(front, last.0, last.1, front.len() as int);
        assert(front.push(last) =~= topology);
    }
}

/// A request body is read back from the members that stand for it.
pub proof fn lemma_request_round_trip(msg_id: usize, body: RequestView)
    requires
        body matches RequestView::Topology { topology } ==> well_formed(topology),
    ensures
        body_of(request_members(msg_id, body)) == Some(BodyView::Request { msg_id, body }),
{
    lemma_names();
    let members = request_members(msg_id, body);
    lemma_member(members, "msg_id"@, 0);
    lemma_member(members, "type"@, 1);
    match body {
        RequestView::Init { node_id, node_ids } => {
            lemma_member(members, "node_id"@, 2);
            lemma_member(members, "node_ids"@, 3);
            lemma_text_array(node_ids);
        },
        RequestView::Echo { echo } => {
            lemma_member(members, "echo"@, 2);
        },
        RequestView::Generate => {},
        RequestView::Broadcast { message } => {
            lemma_member(members, "message"@, 2);
        },
        RequestView::Topology { topology } => {
            lemma_member(members, "topology"@, 2);
            lemma_topology_members(topology);
        },
        RequestView::Read => {},
    }
}

/// A response body is read back from the members that stand for it.
pub proof fn lemma_response_round_trip(in_reply_to: usize, body: ResponseView)
    ensures
        body_of(response_members(in_reply_to, body)) == Some(
            BodyView::Response { in_reply_to, body },
        ),
{
    lemma_names();
    let members = response_members(in_reply_to, body);
    lemma_member(members, "msg_id"@, members.len() as int);
    lemma_member(members, "in_reply_to"@, 0);
    lemma_member(members, "type"@, 1);
    match body {
        ResponseView::InitOk => {},
        ResponseView::Error { code, text } => {
            lemma_member(members, "code"@, 2);
            lemma_member(members, "text"@, 3);
            ErrorCode::lemma_number_round_trip(code, 0);
        },
        ResponseView::EchoOk { echo } => {
            lemma_member(members, "echo"@, 2);
        },
        ResponseView::GenerateOk { id } => {
            lemma_member(members, "id"@, 2);
        },
        ResponseView::BroadcastOk => {},
        ResponseView::TopologyOk => {},
        ResponseView::ReadOk { messages } => {
            lemma_member(members, "messages"@, 2);
            lemma_number_array(messages);
        },
    }
}

/// Writing a message as a document and reading the document gives the
/// message back, whatever its body: a request or a response of any kind,
/// with every field as it was and every error code under its own number.
pub proof fn lemma_round_trip(message: MessageView)
    requires
        sound(message),
    ensures
        message_of_tree(message_tree(message)) == Some(message),
{
    lemma_names();
    let members = message_tree(message)->Object_0;
    lemma_member(members, "src"@, 0);
    lemma_member(members, "dest"@, 1);
    lemma_member(members, "body"@, 2);
    match message.body {
        BodyView::Request { msg_id, body } => {
            lemma_request_round_trip(msg_id, body);
        },
        BodyView::Response { in_reply_to, body } => {
            lemma_response_round_trip(in_reply_to, body);
        },
    }
}

/// Whether a text is the given word.
fn is_word(text: &String, word: &str) -> (same: bool)
    ensures
        same == (text@ == word@),
{
    let wanted = String::from_str(word);
    *text == wanted
}

/// The value of the first member with the given key.
fn find<'a>(entries: &Vec<(&'a String, &'a Value)>, key: &str) -> (found: Option<&'a Value>)
    ensures
        match found {
            Some(value) => member(borrowed_members_of(entries@), key@) == Some(tree_of(*value)),
            None => member(borrowed_members_of(entries@), key@) is None,
        },
{
    let wanted = String::from_str(key);
    let mut i: usize = 0;
    while i < entries.len()
        invariant
            i <= entries.len(),
            wanted@ == key@,
            forall|j: int| 0 <= j < i ==> (#[trigger] borrowed_members_of(entries@)[j]).0 != key@,
        decreases entries.len() - i,
    {
        if *entries[i].0 == wanted {
            proof {
                lemma_member(borrowed_members_of(entries@), key@, i as int);
            }
            return Some(entries[i].1);
        }
        i += 1;
    }
    proof {
        lemma_member(borrowed_members_of(entries@), key@, i as int);
    }
    None
}

/// The member with the given key, where it is a string.
fn text_at(entries: &Vec<(&String, &Value)>, key: &str) -> (found: Option<String>)
    ensures
        match found {
            Some(text) => text_member(borrowed_members_of(entries@), key@) == Some(text@),
            None => text_member(borrowed_members_of(entries@), key@) is None,
        },
{
    match find(entries, key) {
        Some(value) => match text_of(value) {
            Some(text) => Some(String::from_str(text)),
            None => None,
        },
        None => None,
    }
}

/// The number that a value holds, where a `usize` can hold it.
fn number_from(value: &Value) -> (found: Option<usize>)
    ensures
        found == number_in(tree_of(*value)),
{
    match unsigned_of(value) {
        Some(number) => if number <= usize::MAX as u64 {
            Some(number as usize)
        } else {
            None
        },
        None => None,
    }
}

/// The member with the given key, where it is a number that a `usize` can
/// hold.
fn number_at(entries: &Vec<(&String, &Value)>, key: &str) -> (found: Option<usize>)
    ensures
        found == number_member(borrowed_members_of(entries@), key@),
{
    match find(entries, key) {
        Some(value) => number_from(value),
        None => None,
    }
}

/// The strings of a value that is an array of strings.
fn texts_from(value: &Value) -> (found: Option<Vec<String>>)
    ensures
        match found {
            Some(names) => texts_in(tree_of(*value)) == Some(texts(names@)),
            None => texts_in(tree_of(*value)) is None,
        },
{
    match items_of(value) {
        Some(items) => {
            let mut names: Vec<String> = Vec::new();
            let mut i: usize = 0;
            while i < items.len()
                invariant
                    i <= items.len(),
                    names@.len() == i,
                    tree_of(*value) == JsonTree::Array(trees_of(items@)),
                    forall|j: int|
                        0 <= j < i ==> (#[trigger] trees_of(items@)[j]) == JsonTree::Text(
                            names@[j]@,
                        ),
                decreases items.len() - i,
            {
                match text_of(&items[i]) {
                    Some(text) => {
                        names.push(String::from_str(text));
                    },
                    None => {
                        assert(!(trees_of(items@)[i as int] is Text));
                        return None;
                    },
                }
                i += 1;
            }
            assert(trees_of(items@).map_values(|item: JsonTree| item->Text_0) =~= texts(names@));
            Some(names)
        },
        None => None,
    }
}

/// The numbers of a value that is an array of numbers which a `usize` can
/// hold.
fn numbers_from(value: &Value) -> (found: Option<Vec<usize>>)
    ensures
        match found {
            Some(numbers) => numbers_in(tree_of(*value)) == Some(numbers@),
            None => numbers_in(tree_of(*value)) is None,
        },
{
    match items_of(value) {
        Some(items) => {
            let mut numbers: Vec<usize> = Vec::new();
            let mut i: usize = 0;
            while i < items.len()
                invariant
                    i <= items.len(),
                    numbers@.len() == i,
                    tree_of(*value) == JsonTree::Array(trees_of(items@)),
                    forall|j: int|
                        0 <= j < i ==> number_in(#[trigger] trees_of(items@)[j]) == Some(
                            numbers@[j],
                        ),
                decreases items.len() - i,
            {
                match number_from(&items[i]) {
                    Some(number) => {
                        numbers.push(number);
                    },
                    None => {
                        assert(number_in(trees_of(items@)[i as int]) is None);
                        return None;
                    },
                }
                i += 1;
            }
            assert(trees_of(items@).map_values(|item: JsonTree| number_in(item).unwrap())
                =~= numbers@);
            Some(numbers)
        },
        None => None,
    }
}

/// The topology that a value holds, where it is an object whose members
/// are arrays of strings.
fn topology_from(value: &Value) -> (found: Option<Topology>)
    ensures
        match found {
            Some(topology) => topology_in(tree_of(*value)) == Some(topology@),
            None => topology_in(tree_of(*value)) is None,
        },
{
    match entries_of(value) {
        Some(entries) => {
            let ghost members = borrowed_members_of(entries@);
            let mut topology = Topology::new();
            let mut i: usize = 0;
            assert(members.subrange(0, 0) =~= Seq::<(Seq<char>, JsonTree)>::empty());
            while i < entries.len()
                invariant
                    i <= entries.len(),
                    members == borrowed_members_of(entries@),
                    tree_of(*value) == JsonTree::Object(members),
                    topology_of_members(members.subrange(0, i as int)) == Some(topology@),
                decreases entries.len() - i,
            {
                let ghost upto = members.subrange(0, i as int + 1);
                assert(upto.drop_last() =~= members.subrange(0, i as int));
                assert(upto.last() == members[i as int]);
                match texts_from(entries[i].1) {
                    Some(names) => {
                        topology = topology.with(entries[i].0.clone(), names);
                    },
                    None => {
                        proof {
                            lemma_topology_stays_none(members, i as int + 1);
                        }
                        assert(members.subrange(0, members.len() as int) =~= members);
                        return None;
                    },
                }
                i += 1;
            }
            assert(members.subrange(0, members.len() as int) =~= members);
            Some(topology)
        },
        None => None,
    }
}

/// Once some members assign no topology, neither do they with more
/// members behind them.
pub proof fn lemma_topology_stays_none(members: Seq<(Seq<char>, JsonTree)>, upto: int)
    requires
        0 <= upto <= members.len(),
        topology_of_members(members.subrange(0, upto)) is None,
    ensures
        topology_of_members(members) is None,
    decreases members.len() - upto,
{
    if upto < members.len() {
        let longer = members.subrange(0, upto + 1);
        assert(longer.drop_last() =~= members.subrange(0, upto));
        lemma_topology_stays_none(members, upto + 1);
    } else {
        assert(members.subrange(0, upto) =~= members);
    }
}

/// The request that the members of a body spell out.
fn request_from(entries: &Vec<(&String, &Value)>) -> (found: Option<RequestBody>)
    ensures
        match found {
            Some(body) => request_of(borrowed_members_of(entries@)) == Some(body@),
            None => request_of(borrowed_members_of(entries@)) is None,
        },
{
    let kind = match text_at(entries, "type") {
        Some(kind) => kind,
        None => {
            return None;
        },
    };
    if is_word(&kind, "init") {
        let node_id = text_at(entries, "node_id");
        let list = find(entries, "node_ids");
        match (node_id, list) {
            (Some(node_id), Some(list)) => match texts_from(list) {
                Some(node_ids) => Some(RequestBody::Init { node_id, node_ids }),
                None => None,
            },
            _ => None,
        }
    } else if is_word(&kind, "echo") {
        match text_at(entries, "echo") {
            Some(echo) => Some(RequestBody::Echo { echo }),
            None => None,
        }
    } else if is_word(&kind, "generate") {
        Some(RequestBody::Generate {  })
    } else if is_word(&kind, "broadcast") {
        match number_at(entries, "message") {
            Some(message) => Some(RequestBody::Broadcast { message }),
            None => None,
        }
    } else if is_word(&kind, "topology") {
        match find(entries, "topology") {
            Some(value) => match topology_from(value) {
                Some(topology) => Some(RequestBody::Topology { topology }),
                None => None,
            },
            None => None,
        }
    } else if is_word(&kind, "read") {
        Some(RequestBody::Read {  })
    } else {
        None
    }
}

/// The error code that a value holds.
fn code_from(value: &Value) -> (found: Option<ErrorCode>)
    ensures
        found == code_in(tree_of(*value)),
{
    match unsigned_of(value) {
        Some(number) => if number <= 255 {
            ErrorCode::from(number as u8)
        } else {
            None
        },
        None => None,
    }
}

/// The response that the members of a body spell out.
fn response_from(entries: &Vec<(&String, &Value)>) -> (found: Option<ResponseBody>)
    ensures
        match found {
            Some(body) => response_of(borrowed_members_of(entries@)) == Some(body@),
            None => response_of(borrowed_members_of(entries@)) is None,
        },
{
    let kind = match text_at(entries, "type") {
        Some(kind) => kind,
        None => {
            return None;
        },
    };
    if is_word(&kind, "init_ok") {
        Some(ResponseBody::InitOk {  })
    } else if is_word(&kind, "error") {
        let number = find(entries, "code");
        let text = text_at(entries, "text");
        match (number, text) {
            (Some(number), Some(text)) => match code_from(number) {
                Some(code) => Some(ResponseBody::Error { code, text }),
                None => None,
            },
            _ => None,
        }
    } else if is_word(&kind, "echo_ok") {
        match text_at(entries, "echo") {
            Some(echo) => Some(ResponseBody::EchoOk { echo }),
            None => None,
        }
    } else if is_word(&kind, "generate_ok") {
        match text_at(entries, "id") {
            Some(id) => Some(ResponseBody::GenerateOk { id }),
            None => None,
        }
    } else if is_word(&kind, "broadcast_ok") {
        Some(ResponseBody::BroadcastOk {  })
    } else if is_word(&kind, "topology_ok") {
        Some(ResponseBody::TopologyOk {  })
    } else if is_word(&kind, "read_ok") {
        match find(entries, "messages") {
            Some(list) => match numbers_from(list) {
                Some(messages) => Some(ResponseBody::ReadOk { messages }),
                None => None,
            },
            None => None,
        }
    } else {
        None
    }
}

/// The body that the members spell out.
fn body_from(entries: &Vec<(&String, &Value)>) -> (found: Option<Body>)
    ensures
        match found {
            Some(body) => body_of(borrowed_members_of(entries@)) == Some(body@),
            None => body_of(borrowed_members_of(entries@)) is None,
        },
{
    let msg_id = number_at(entries, "msg_id");
    let request = request_from(entries);
    match (msg_id, request) {
        (Some(msg_id), Some(body)) => Some(Body::Request { msg_id, body }),
        _ => {
            let in_reply_to = number_at(entries, "in_reply_to");
            let response = response_from(entries);
            match (in_reply_to, response) {
                (Some(in_reply_to), Some(body)) => Some(Body::Response { in_reply_to, body }),
                _ => None,
            }
        },
    }
}

/// Reads a message from a document. The result is the message that the
/// document stands for, and `DecodeError::Shape` where it stands for none.
pub fn from_value(value: &Value) -> (result: Result<Message, DecodeError>)
    ensures
        match message_of_tree(tree_of(*value)) {
            Some(message) => result matches Ok(read) && read@ == message,
            None => result == Err::<Message, DecodeError>(DecodeError::Shape),
        },
{
    let entries = match entries_of(value) {
        Some(entries) => entries,
        None => {
            return Err(DecodeError::Shape);
        },
    };
    let src = text_at(&entries, "src");
    let dst = text_at(&entries, "dest");
    let inner = match find(&entries, "body") {
        Some(inner) => entries_of(inner),
        None => None,
    };
    match (src, dst, inner) {
        (Some(src), Some(dst), Some(inner)) => match body_from(&inner) {
            Some(body) => Ok(Message { src, dst, body }),
            None => Err(DecodeError::Shape),
        },
        _ => Err(DecodeError::Shape),
    }
}

/// Decodes one line of input. A line that is no JSON document gives
/// `DecodeError::Syntax`, a document that stands for no message gives
/// `DecodeError::Shape`, and any other line gives the message it stands for.
pub fn decode(line: &str) -> (result: Result<Message, DecodeError>)
    ensures
        match parsed(line@) {
            None => result == Err::<Message, DecodeError>(DecodeError::Syntax),
            Some(tree) => match message_of_tree(tree) {
                Some(message) => result matches Ok(read) && read@ == message,
                None => result == Err::<Message, DecodeError>(DecodeError::Shape),
            },
        },
{
    match parse(line) {
        Ok(value) => from_value(&value),
        Err(_) => Err(DecodeError::Syntax),
    }
}

/// The array of the given strings.
fn text_list(names: &Vec<String>) -> (value: Value)
    ensures
        tree_of(value) == text_array(texts(names@)),
{
    let mut items: Vec<Value> = Vec::new();
    let mut i: usize = 0;
    while i < names.len()
        invariant
            i <= names.len(),
            items@.len() == i,
            forall|j: int| 0 <= j < i ==> tree_of(#[trigger] items@[j]) == JsonTree::Text(names@[j]@),
        decreases names.len() - i,
    {
        items.push(text_value(names[i].clone()));
        i += 1;
    }
    assert(trees_of(items@) =~= texts(names@).map_values(|name: Seq<char>| JsonTree::Text(name)));
    array_value(items)
}

/// The array of the given numbers.
fn number_list(numbers: &Vec<usize>) -> (value: Value)
    ensures
        tree_of(value) == number_array(numbers@),
{
    let mut items: Vec<Value> = Vec::new();
    let mut i: usize = 0;
    while i < numbers.len()
        invariant
            i <= numbers.len(),
            items@.len() == i,
            forall|j: int|
                0 <= j < i ==> tree_of(#[trigger] items@[j]) == JsonTree::Unsigned(
                    numbers@[j] as u64,
                ),
        decreases numbers.len() - i,
    {
        items.push(unsigned_value(numbers[i] as u64));
        i += 1;
    }
    assert(trees_of(items@) =~= numbers@.map_values(
        |number: usize| JsonTree::Unsigned(number as u64),
    ));
    array_value(items)
}

/// The object that stands for a topology.
fn topology_value(topology: &Topology) -> (value: Value)
    ensures
        tree_of(value) == JsonTree::Object(topology_members(topology@)),
{
    let count = topology.len();
    let mut entries: Vec<(String, Value)> = Vec::new();
    let mut i: usize = 0;
    while i < count
        invariant
            i <= count,
            count == topology@.len(),
            entries@.len() == i,
            forall|j: int|
                0 <= j < i ==> (#[trigger] members_of(entries@)[j]) == topology_members(
                    topology@,
                )[j],
        decreases count - i,
    {
        let ghost before = members_of(entries@);
        let node = topology.node_at(i).clone();
        let neighbors = text_list(topology.neighbors_at(i));
        entries.push((node, neighbors));
        assert forall|j: int| 0 <= j < i + 1 implies (#[trigger] members_of(entries@)[j])
            == topology_members(topology@)[j] by {
            if j < i {
                assert(members_of(entries@)[j] == before[j]);
            }
        }
        i += 1;
    }
    assert(members_of(entries@) =~= topology_members(topology@));
    object_value(entries)
}

/// One member of an object under construction.
fn entry(key: &str, value: Value) -> (made: (String, Value))
    ensures
        made.0@ == key@,
        made.1 == value,
{
    (String::from_str(key), value)
}

/// The object that stands for a body.
fn body_value(body: &Body) -> (value: Value)
    ensures
        tree_of(value) == JsonTree::Object(body_members(body@)),
{
    proof {
        lemma_names();
    }
    let mut entries: Vec<(String, Value)> = Vec::new();
    match body {
        Body::Request { msg_id, body } => {
            entries.push(entry("msg_id", unsigned_value(*msg_id as u64)));
            match body {
                RequestBody::Init { node_id, node_ids } => {
                    entries.push(entry("type", text_value(String::from_str("init"))));
                    entries.push(entry("node_id", text_value(node_id.clone())));
                    entries.push(entry("node_ids", text_list(node_ids)));
                },
                RequestBody::Echo { echo } => {
                    entries.push(entry("type", text_value(String::from_str("echo"))));
                    entries.push(entry("echo", text_value(echo.clone())));
                },
                RequestBody::Generate {  } => {
                    entries.push(entry("type", text_value(String::from_str("generate"))));
                },
                RequestBody::Broadcast { message } => {
                    entries.push(entry("type", text_value(String::from_str("broadcast"))));
                    entries.push(entry("message", unsigned_value(*message as u64)));
                },
                RequestBody::Topology { topology } => {
                    entries.push(entry("type", text_value(String::from_str("topology"))));
                    entries.push(entry("topology", topology_value(topology)));
                },
                RequestBody::Read {  } => {
                    entries.push(entry("type", text_value(String::from_str("read"))));
                },
            }
        },
        Body::Response { in_reply_to, body } => {
            entries.push(entry("in_reply_to", unsigned_value(*in_reply_to as u64)));
            match body {
                ResponseBody::InitOk {  } => {
                    entries.push(entry("type", text_value(String::from_str("init_ok"))));
                },
                ResponseBody::Error { code, text } => {
                    entries.push(entry("type", text_value(String::from_str("error"))));
                    entries.push(entry("code", unsigned_value(ErrorCode::into(*code) as u64)));
                    entries.push(entry("text", text_value(text.clone())));
                },
                ResponseBody::EchoOk { echo } => {
                    entries.push(entry("type", text_value(String::from_str("echo_ok"))));
                    entries.push(entry("echo", text_value(echo.clone())));
                },
                ResponseBody::GenerateOk { id } => {
                    entries.push(entry("type", text_value(String::from_str("generate_ok"))));
                    entries.push(entry("id", text_value(id.clone())));
                },
                ResponseBody::BroadcastOk {  } => {
                    entries.push(entry("type", text_value(String::from_str("broadcast_ok"))));
                },
                ResponseBody::TopologyOk {  } => {
                    entries.push(entry("type", text_value(String::from_str("topology_ok"))));
                },
                ResponseBody::ReadOk { messages } => {
                    entries.push(entry("type", text_value(String::from_str("read_ok"))));
                    entries.push(entry("messages", number_list(messages)));
                },
            }
        },
    }
    assert(members_of(entries@) =~= body_members(body@));
    object_value(entries)
}

/// Every message at hand is sound: a topology that it carries is well
/// formed.
fn confirm_sound(message: &Message)
    ensures
        sound(message@),
{
    match &message.body {
        Body::Request { body: RequestBody::Topology { topology }, .. } => {
            let _entries: usize = topology.len();
        },
        _ => {},
    }
}

/// The document that stands for a message. Reading it gives the message
/// back.
pub fn to_value(message: &Message) -> (value: Value)
    ensures
        tree_of(value) == message_tree(message@),
        message_of_tree(tree_of(value)) == Some(message@),
{
    confirm_sound(message);
    proof {
        lemma_names();
        lemma_round_trip(message@);
    }
    let mut entries: Vec<(String, Value)> = Vec::new();
    entries.push(entry("src", text_value(message.src.clone())));
    entries.push(entry("dest", text_value(message.dst.clone())));
    entries.push(entry("body", body_value(&message.body)));
    assert(members_of(entries@) =~= message_tree(message@)->Object_0);
    object_value(entries)
}

/// Encodes a message as one line of JSON, without the newline that ends it:
/// the text of the document that stands for the message, from which the
/// message is read back.
pub fn encode(message: &Message) -> (line: String)
    ensures
        line@ == rendered(message_tree(message@)),
        message_of_tree(message_tree(message@)) == Some(message@),
{
    let value = to_value(message);
    render(&value)
}

} // verus!
