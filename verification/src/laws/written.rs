//! What the files of BitComet say of its tasks and of its web interface.

use vstd::prelude::*;
use vstd::string::*;
use vstd::utf8::*;

use crate::bitcomet::tasks::{
    document_tasks, field_of, file_tasks, file_text, first_tasks, flag_in, is_called, number_in,
    task_of, tasks_from, utf16_decoded, without_commas, written_tasks, ReadingView,
};
use crate::bitcomet::webui::{are_tried, find_called, port_in, settings_in, settings_of};
use crate::laws::feed::{attribute_is, has_no_attribute, lemma_attribute_is};
use crate::laws::submission::{law_executable_is_told_by_its_name, leads_to_bitcomet};
use crate::laws::words::{
    law_lower_case_tells_the_same_texts, lemma_lower_is, lemma_lower_word, same_but_case,
};
use crate::number::decimal_value;
use crate::text::{lower, trimmed, without_leading, without_trailing};
use crate::util::PathFacts;
use crate::xml::{
    attribute_of, document_of, find_attribute, find_child_of, is_one_of, AttributeView, NodeView,
};

verus! {

/// Whether a name is one of several, in any case of its letters.
pub open spec fn is_any_of(name: Seq<char>, names: Seq<&str>) -> bool {
    exists|i: int| 0 <= i < names.len() && same_but_case(name, #[trigger] names[i]@)
}

proof fn lemma_any_of(name: Seq<char>, names: Seq<&str>)
    ensures
        is_one_of(name, names) <==> is_any_of(name, names),
{
    if is_one_of(name, names) {
        let i = choose|i: int| 0 <= i < names.len() && lower(name) == lower(#[trigger] names[i]@);
        law_lower_case_tells_the_same_texts(name, names[i]@);
    }
    if is_any_of(name, names) {
        let i = choose|i: int| 0 <= i < names.len() && same_but_case(name, #[trigger] names[i]@);
        law_lower_case_tells_the_same_texts(name, names[i]@);
    }
}

/// Whether an attribute is the first with one of several names.
pub open spec fn is_first_of(attributes: Seq<AttributeView>, names: Seq<&str>, at: int) -> bool {
    &&& 0 <= at < attributes.len()
    &&& is_any_of(attributes[at].name, names)
    &&& forall|j: int| 0 <= j < at ==> !is_any_of((#[trigger] attributes[j]).name, names)
}

/// Whether no attribute has one of several names.
pub open spec fn has_none_of(attributes: Seq<AttributeView>, names: Seq<&str>) -> bool {
    forall|j: int| 0 <= j < attributes.len() ==> !is_any_of((#[trigger] attributes[j]).name, names)
}

/// Whether a node is a child element with one of several names.
pub open spec fn is_child_of_name(
    nodes: Seq<NodeView>,
    node: int,
    parent: int,
    names: Seq<&str>,
) -> bool {
    nodes[node].parent == Some(parent) && nodes[node].element && is_any_of(nodes[node].name, names)
}

/// Whether a node is the first child element with one of several names.
pub open spec fn is_first_child_of(
    nodes: Seq<NodeView>,
    parent: int,
    names: Seq<&str>,
    at: int,
) -> bool {
    &&& 0 <= at < nodes.len()
    &&& is_child_of_name(nodes, at, parent, names)
    &&& forall|j: int| 0 <= j < at ==> !#[trigger] is_child_of_name(nodes, j, parent, names)
}

/// Whether no child element has one of several names.
pub open spec fn has_no_child_of(nodes: Seq<NodeView>, parent: int, names: Seq<&str>) -> bool {
    forall|j: int| 0 <= j < nodes.len() ==> !#[trigger] is_child_of_name(nodes, j, parent, names)
}

proof fn lemma_find_attribute(attributes: Seq<AttributeView>, names: Seq<&str>, from: int)
    requires
        0 <= from <= attributes.len(),
    ensures
        from <= find_attribute(attributes, names, from) <= attributes.len(),
        find_attribute(attributes, names, from) < attributes.len() ==> is_any_of(
            attributes[find_attribute(attributes, names, from)].name,
            names,
        ),
        forall|j: int|
            from <= j < find_attribute(attributes, names, from) ==> !is_any_of(
                (#[trigger] attributes[j]).name,
                names,
            ),
    decreases attributes.len() - from,
{
    if from < attributes.len() {
        lemma_any_of(attributes[from].name, names);
        if !is_any_of(attributes[from].name, names) {
            lemma_find_attribute(attributes, names, from + 1);
        }
    }
}

proof fn lemma_find_child_of(nodes: Seq<NodeView>, parent: int, names: Seq<&str>, from: int)
    requires
        0 <= from <= nodes.len(),
    ensures
        from <= find_child_of(nodes, parent, names, from) <= nodes.len(),
        find_child_of(nodes, parent, names, from) < nodes.len() ==> is_child_of_name(
            nodes,
            find_child_of(nodes, parent, names, from),
            parent,
            names,
        ),
        forall|j: int|
            from <= j < find_child_of(nodes, parent, names, from) ==> !#[trigger] is_child_of_name(
                nodes,
                j,
                parent,
                names,
            ),
    decreases nodes.len() - from,
{
    if from < nodes.len() {
        lemma_any_of(nodes[from].name, names);
        if !is_child_of_name(nodes, from, parent, names) {
            lemma_find_child_of(nodes, parent, names, from + 1);
        }
    }
}

/// Whether a field of an element says something: the first attribute with one
/// of its names does, or else the first child element with one, whose plain
/// attribute `Value` comes before its text. The white space around it does not
/// count.
pub open spec fn field_says(
    nodes: Seq<NodeView>,
    node: int,
    names: Seq<&str>,
    text: Seq<char>,
) -> bool {
    ||| exists|at: int| #[trigger]
        is_first_of(nodes[node].attributes, names, at) && text == trimmed(
            nodes[node].attributes[at].value,
        )
    ||| has_none_of(nodes[node].attributes, names) && exists|child: int| #[trigger]
        is_first_child_of(nodes, node, names, child) && child_gives(nodes[child], text)
    ||| has_none_of(nodes[node].attributes, names) && has_no_child_of(nodes, node, names)
        && text.len() == 0
}

/// Whether an element gives a value: in its plain attribute `Value`, else in
/// its text.
pub open spec fn child_gives(child: NodeView, text: Seq<char>) -> bool {
    ||| exists|value: Seq<char>| #[trigger] attribute_is(child.attributes, "Value"@, value) && text
        == trimmed(value)
    ||| has_no_attribute(child.attributes, "Value"@) && match child.text {
        Some(raw) => text == trimmed(raw),
        None => text.len() == 0,
    }
}

proof fn lemma_child_gives(child: NodeView, text: Seq<char>)
    ensures
        child_gives(child, text) <==> text == match attribute_of(child.attributes, "Value"@, 0) {
            Some(value) => trimmed(value),
            None => match child.text {
                Some(raw) => trimmed(raw),
                None => Seq::empty(),
            },
        },
{
    if let Some(value) = attribute_of(child.attributes, "Value"@, 0) {
        lemma_attribute_is(child.attributes, "Value"@, value);
    } else {
        lemma_attribute_is(child.attributes, "Value"@, Seq::empty());
        if text.len() == 0 {
            assert(text =~= Seq::empty());
        }
    }
    if exists|value: Seq<char>| #[trigger] attribute_is(child.attributes, "Value"@, value) && text
        == trimmed(value) {
        let value = choose|value: Seq<char>| #[trigger]
            attribute_is(child.attributes, "Value"@, value) && text == trimmed(value);
        lemma_attribute_is(child.attributes, "Value"@, value);
    }
}

/// A field of an element is what it says.
pub proof fn law_fields_are_what_they_say(
    nodes: Seq<NodeView>,
    node: int,
    names: Seq<&str>,
    text: Seq<char>,
)
    ensures
        field_of(nodes, node, names) == text <==> field_says(nodes, node, names, text),
{
    let attributes = nodes[node].attributes;
    lemma_find_attribute(attributes, names, 0);
    lemma_find_child_of(nodes, node, names, 0);
    let at = find_attribute(attributes, names, 0);
    let child = find_child_of(nodes, node, names, 0);
    if at < attributes.len() {
        assert(is_first_of(attributes, names, at));
        assert(!has_none_of(attributes, names));
        assert forall|other: int| #[trigger] is_first_of(attributes, names, other) implies other
            == at by {
            if at < other {
                assert(!is_any_of(attributes[at].name, names));
            }
        }
    } else {
        assert forall|other: int| !#[trigger] is_first_of(attributes, names, other) by {}
        if child < nodes.len() {
            lemma_child_gives(nodes[child], text);
            assert(is_first_child_of(nodes, node, names, child));
            assert(is_child_of_name(nodes, child, node, names));
            assert forall|other: int| #[trigger]
                is_first_child_of(nodes, node, names, other) implies other == child by {
                if child < other {
                    assert(!is_child_of_name(nodes, child, node, names));
                }
            }
        } else {
            assert forall|other: int| !#[trigger] is_first_child_of(nodes, node, names, other) by {
                if 0 <= other < nodes.len() {
                    assert(!is_child_of_name(nodes, other, node, names));
                }
            }
            if text.len() == 0 {
                assert(text =~= Seq::empty());
            }
        }
    }
}

/// An element describes a task where it has an info hash, by one of two names.
/// All else is taken from fields, each of which has several names.
pub proof fn law_written_task_has_its_fields(
    nodes: Seq<NodeView>,
    node: int,
    hash: Seq<char>,
    text: Seq<char>,
)
    requires
        field_says(nodes, node, ["InfoHashHex", "InfoHash"]@, hash),
    ensures
        hash.len() == 0 <==> task_of(nodes, node) is None,
        task_of(nodes, node) matches Some(reported) ==> {
            let task = reported.task;
            &&& task.info_hash == lower(hash)
            &&& task.task_id.len() == 0
            &&& task.progress_percent is None
            &&& field_says(nodes, node, ["FinishDate", "FinishTime", "CompletedTime"]@, text)
                ==> task.finish_date == text
            &&& field_says(nodes, node, ["Left", "LeftSize", "TotalLeft", "DownloadLeft"]@, text)
                ==> task.left == number_in(text)
            &&& field_says(nodes, node, ["Completed", "IsCompleted", "Finished"]@, text)
                ==> task.completed == flag_in(text)
            &&& field_says(nodes, node, ["Status", "TaskStatus"]@, text) ==> task.status == text
            &&& field_says(nodes, node, ["SaveName"]@, text) ==> task.save_name == text
            &&& field_says(nodes, node, ["ShowName", "Name"]@, text) ==> task.show_name == text
            &&& field_says(nodes, node, ["SaveLocation", "SavePath"]@, text)
                ==> task.save_location == text
            &&& field_says(nodes, node, ["Progress", "ProgressPercent", "Percent"]@, text)
                ==> reported.progress == ReadingView::Percent(without_trailing(text, '%'))
        },
{
    law_fields_are_what_they_say(nodes, node, ["InfoHashHex", "InfoHash"]@, hash);
    law_fields_are_what_they_say(
        nodes,
        node,
        ["FinishDate", "FinishTime", "CompletedTime"]@,
        text,
    );
    law_fields_are_what_they_say(
        nodes,
        node,
        ["Left", "LeftSize", "TotalLeft", "DownloadLeft"]@,
        text,
    );
    law_fields_are_what_they_say(nodes, node, ["Completed", "IsCompleted", "Finished"]@, text);
    law_fields_are_what_they_say(nodes, node, ["Status", "TaskStatus"]@, text);
    law_fields_are_what_they_say(nodes, node, ["SaveName"]@, text);
    law_fields_are_what_they_say(nodes, node, ["ShowName", "Name"]@, text);
    law_fields_are_what_they_say(nodes, node, ["SaveLocation", "SavePath"]@, text);
    law_fields_are_what_they_say(
        nodes,
        node,
        ["Progress", "ProgressPercent", "Percent"]@,
        text,
    );
    assert(lower(hash).len() == hash.len());
}

/// A word for yes or no is told in any case of its letters; any other says
/// neither.
pub proof fn law_flags_are_words(text: Seq<char>)
    ensures
        flag_in(text) == Some(true) <==> same_but_case(text, "1"@) || same_but_case(
            text,
            "true"@,
        ) || same_but_case(text, "yes"@),
        flag_in(text) == Some(false) <==> same_but_case(text, "0"@) || same_but_case(
            text,
            "false"@,
        ) || same_but_case(text, "no"@),
{
    reveal_strlit("1");
    reveal_strlit("true");
    reveal_strlit("yes");
    reveal_strlit("0");
    reveal_strlit("false");
    reveal_strlit("no");
    lemma_lower_word("1"@);
    lemma_lower_word("true"@);
    lemma_lower_word("yes"@);
    lemma_lower_word("0"@);
    lemma_lower_word("false"@);
    lemma_lower_word("no"@);
    lemma_lower_is(text, "1"@);
    lemma_lower_is(text, "true"@);
    lemma_lower_is(text, "yes"@);
    lemma_lower_is(text, "0"@);
    lemma_lower_is(text, "false"@);
    lemma_lower_is(text, "no"@);
    assert("1"@[0] != "0"@[0]);
    assert("yes"@.len() == 3 && "no"@.len() == 2 && "true"@.len() == 4 && "false"@.len() == 5);
    assert("1"@.len() == 1 && "0"@.len() == 1);
}

/// Commas in a number do not count: what stands before and behind one is read
/// as if it were not there, and a text without commas is read as it is.
pub proof fn law_commas_do_not_count(first: Seq<char>, second: Seq<char>)
    ensures
        without_commas(first + seq![','] + second) == without_commas(first + second),
        !first.contains(',') ==> without_commas(first) == first,
        number_in(first + seq![','] + second) == number_in(first + second),
        !first.contains(',') ==> number_in(first) == match decimal_value(
            encode_utf8(first),
            u64::MAX as nat,
        ) {
            Some(value) => Some(value as u64),
            None => None,
        },
    decreases first.len() + second.len(),
{
    let with = first + seq![','] + second;
    let without = first + second;
    if second.len() > 0 {
        law_commas_do_not_count(first, second.drop_last());
        assert(with.drop_last() =~= first + seq![','] + second.drop_last());
        assert(without.drop_last() =~= first + second.drop_last());
        assert(with.last() == second.last() && without.last() == second.last());
    } else {
        assert(with.drop_last() =~= first);
        assert(without =~= first);
    }
    if !first.contains(',') {
        lemma_no_commas(first);
    }
}

proof fn lemma_no_commas(text: Seq<char>)
    requires
        !text.contains(','),
    ensures
        without_commas(text) == text,
    decreases text.len(),
{
    if text.len() > 0 {
        let rest = text.drop_last();
        assert(!rest.contains(',')) by {
            if rest.contains(',') {
                let i = choose|i: int| 0 <= i < rest.len() && rest[i] == ',';
                assert(text[i] == ',');
            }
        }
        lemma_no_commas(rest);
        assert(text[text.len() - 1] == text.last());
        assert(rest.push(text.last()) =~= text);
    } else {
        assert(text =~= Seq::empty());
    }
}

/// Whether places are those of the tasks in a document, in its order: the
/// elements named `Torrent`, in any case of its letters, that describe one.
pub open spec fn are_task_places(nodes: Seq<NodeView>, from: int, places: Seq<int>) -> bool {
    &&& forall|i: int|
        0 <= i < places.len() ==> from <= #[trigger] places[i] < nodes.len() && is_torrent(
            nodes[places[i]],
        ) && task_of(nodes, places[i]) is Some
    &&& forall|i: int, j: int| 0 <= i < j < places.len() ==> places[i] < places[j]
    &&& forall|node: int|
        from <= node < nodes.len() && is_torrent(#[trigger] nodes[node]) && task_of(
            nodes,
            node,
        ) is Some ==> places.contains(node)
}

/// Whether a node is an element named `Torrent`, in any case of its letters.
pub open spec fn is_torrent(node: NodeView) -> bool {
    node.element && same_but_case(node.name, "Torrent"@)
}

proof fn lemma_task_places(nodes: Seq<NodeView>, from: int) -> (places: Seq<int>)
    requires
        0 <= from <= nodes.len(),
    ensures
        are_task_places(nodes, from, places),
        tasks_from(nodes, from).len() == places.len(),
        forall|i: int|
            0 <= i < places.len() ==> task_of(nodes, #[trigger] places[i]) == Some(
                tasks_from(nodes, from)[i],
            ),
    decreases nodes.len() - from,
{
    if from >= nodes.len() {
        Seq::empty()
    } else {
        let rest = lemma_task_places(nodes, from + 1);
        law_lower_case_tells_the_same_texts(nodes[from].name, "Torrent"@);
        if is_torrent(nodes[from]) && task_of(nodes, from) is Some {
            let places = seq![from] + rest;
            assert forall|node: int|
                from <= node < nodes.len() && is_torrent(#[trigger] nodes[node]) && task_of(
                    nodes,
                    node,
                ) is Some implies places.contains(node) by {
                if node == from {
                    assert(places[0] == from);
                } else {
                    assert(rest.contains(node));
                    let i = choose|i: int| 0 <= i < rest.len() && rest[i] == node;
                    assert(places[i + 1] == node);
                }
            }
            assert forall|i: int| 0 <= i < places.len() implies task_of(nodes, #[trigger] places[i])
                == Some(tasks_from(nodes, from)[i]) by {
                if i > 0 {
                    assert(places[i] == rest[i - 1]);
                }
            }
            assert forall|i: int| 0 <= i < places.len() implies from <= #[trigger] places[i]
                < nodes.len() && is_torrent(nodes[places[i]]) && task_of(
                nodes,
                places[i],
            ) is Some by {
                if i > 0 {
                    assert(places[i] == rest[i - 1]);
                }
            }
            assert forall|i: int, j: int| 0 <= i < j < places.len() implies places[i]
                < places[j] by {
                assert(places[j] == rest[j - 1]);
                if i > 0 {
                    assert(places[i] == rest[i - 1]);
                }
            }
            places
        } else {
            rest
        }
    }
}

/// The tasks in a document are those of its elements named `Torrent`, in the
/// same order, and what cannot be read has none.
pub proof fn law_document_has_its_tasks(xml: Seq<char>, nodes: Seq<NodeView>)
    ensures
        document_of(without_leading(xml, '\u{feff}')) is None ==> document_tasks(xml) is None,
        document_of(without_leading(xml, '\u{feff}')) == Some(nodes) ==> (document_tasks(
            xml,
        ) matches Some(tasks) && exists|places: Seq<int>| #[trigger]
            are_task_places(nodes, 0, places) && tasks.len() == places.len() && (forall|i: int|
            0 <= i < places.len() ==> task_of(nodes, #[trigger] places[i]) == Some(tasks[i]))),
{
    let places = lemma_task_places(nodes, 0);
    assert(are_task_places(nodes, 0, places));
}

proof fn lemma_first_tasks(files: Seq<Vec<u8>>, from: int, at: int)
    requires
        0 <= from <= at < files.len(),
        file_tasks(files[at]@) is Some,
        forall|j: int| from <= j < at ==> file_tasks((#[trigger] files[j])@) is None,
    ensures
        first_tasks(files, from) == file_tasks(files[at]@)->Some_0,
    decreases at - from,
{
    if from < at {
        lemma_first_tasks(files, from + 1, at);
    }
}

proof fn lemma_no_tasks(files: Seq<Vec<u8>>, from: int)
    requires
        0 <= from <= files.len(),
        forall|j: int| from <= j < files.len() ==> file_tasks((#[trigger] files[j])@) is None,
    ensures
        first_tasks(files, from).len() == 0,
    decreases files.len() - from,
{
    if from < files.len() {
        lemma_no_tasks(files, from + 1);
    }
}

/// The tasks are those of the first file that can be read as a document, and
/// only where the executable is one; else there are none.
pub proof fn law_first_readable_file_has_the_tasks(
    facts: PathFacts,
    files: Seq<Vec<u8>>,
    at: int,
    xml: Seq<char>,
)
    ensures
        !leads_to_bitcomet(facts) ==> written_tasks(facts, files).len() == 0,
        leads_to_bitcomet(facts) && 0 <= at < files.len() && file_tasks(files[at]@) is Some && (
        forall|j: int| 0 <= j < at ==> file_tasks((#[trigger] files[j])@) is None)
            ==> written_tasks(facts, files) == file_tasks(files[at]@)->Some_0,
        (forall|j: int| 0 <= j < files.len() ==> file_tasks((#[trigger] files[j])@) is None)
            ==> written_tasks(facts, files).len() == 0,
        0 <= at < files.len() && file_text(files[at]@) == Ok::<_, Seq<char>>(xml) ==> file_tasks(
            files[at]@,
        ) == document_tasks(xml),
        0 <= at < files.len() && file_text(files[at]@) is Err ==> file_tasks(files[at]@) is None,
{
    law_executable_is_told_by_its_name(facts);
    if 0 <= at < files.len() && file_tasks(files[at]@) is Some && (forall|j: int|
        0 <= j < at ==> file_tasks((#[trigger] files[j])@) is None) {
        lemma_first_tasks(files, 0, at);
    }
    if forall|j: int| 0 <= j < files.len() ==> file_tasks((#[trigger] files[j])@) is None {
        lemma_no_tasks(files, 0);
    }
}

/// A file without a byte order mark is read as UTF-8, unless a byte in an odd
/// place near its beginning is zero: then it is read as UTF-16, the low byte
/// first.
pub proof fn law_files_without_a_mark(bytes: Seq<u8>, place: int)
    requires
        !(bytes.len() >= 2 && bytes[0] == 0xff && bytes[1] == 0xfe),
        !(bytes.len() >= 2 && bytes[0] == 0xfe && bytes[1] == 0xff),
    ensures
        (forall|i: int| 0 <= i < bytes.len() && i < 64 && i % 2 == 1 ==> #[trigger] bytes[i] != 0)
            && valid_utf8(bytes) ==> file_text(bytes) == Ok::<_, Seq<char>>(decode_utf8(bytes)),
        (forall|i: int| 0 <= i < bytes.len() && i < 64 && i % 2 == 1 ==> #[trigger] bytes[i] != 0)
            && !valid_utf8(bytes) ==> file_text(bytes) is Err,
        0 <= place < bytes.len() && place < 64 && place % 2 == 1 && bytes[place] == 0 ==> file_text(
            bytes,
        ) == utf16_decoded(bytes, true),
        0 <= place < bytes.len() && place < 64 && place % 2 == 1 && bytes[place] == 0
            && bytes.len() % 2 == 1 ==> file_text(bytes) == Err::<Seq<char>, _>(
            "Invalid UTF-16 XML length"@,
        ),
{
}

proof fn lemma_find_called(nodes: Seq<NodeView>, name: Seq<char>, from: int)
    requires
        0 <= from <= nodes.len(),
    ensures
        from <= find_called(nodes, name, from) <= nodes.len(),
        find_called(nodes, name, from) < nodes.len() ==> nodes[find_called(
            nodes,
            name,
            from,
        )].element && same_but_case(nodes[find_called(nodes, name, from)].name, name),
        forall|j: int|
            from <= j < find_called(nodes, name, from) ==> !((#[trigger] nodes[j]).element
                && same_but_case(nodes[j].name, name)),
    decreases nodes.len() - from,
{
    if from < nodes.len() {
        law_lower_case_tells_the_same_texts(nodes[from].name, name);
        if !is_called(nodes[from], name) {
            lemma_find_called(nodes, name, from + 1);
        }
    }
}

/// The port, the user and the password of the web interface are fields of the
/// first element named `Settings`, in any case of its letters.
pub proof fn law_settings_say_where_the_interface_is(
    nodes: Seq<NodeView>,
    settings: int,
    text: Seq<char>,
)
    requires
        0 <= settings < nodes.len(),
        nodes[settings].element && same_but_case(nodes[settings].name, "Settings"@),
        forall|j: int|
            0 <= j < settings ==> !((#[trigger] nodes[j]).element && same_but_case(
                nodes[j].name,
                "Settings"@,
            )),
    ensures
        field_says(nodes, settings, ["WebInterfacePort", "WebUIPort"]@, text) ==> settings_in(
            Some(nodes),
        ).port == port_in(text),
        field_says(nodes, settings, ["WebInterfaceUsername", "WebUIUsername"]@, text)
            ==> settings_in(Some(nodes)).username == text,
        field_says(nodes, settings, ["WebInterfacePassword", "WebUIPassword"]@, text)
            ==> settings_in(Some(nodes)).password == text,
{
    lemma_find_called(nodes, "Settings"@, 0);
    law_fields_are_what_they_say(nodes, settings, ["WebInterfacePort", "WebUIPort"]@, text);
    law_fields_are_what_they_say(
        nodes,
        settings,
        ["WebInterfaceUsername", "WebUIUsername"]@,
        text,
    );
    law_fields_are_what_they_say(
        nodes,
        settings,
        ["WebInterfacePassword", "WebUIPassword"]@,
        text,
    );
}

/// A document without such an element has no settings.
pub proof fn law_documents_without_settings_say_nothing(nodes: Seq<NodeView>)
    requires
        forall|j: int|
            0 <= j < nodes.len() ==> !((#[trigger] nodes[j]).element && same_but_case(
                nodes[j].name,
                "Settings"@,
            )),
    ensures
        settings_in(Some(nodes)).port is None,
        settings_in(Some(nodes)).username.len() == 0,
        settings_in(Some(nodes)).password.len() == 0,
{
    lemma_find_called(nodes, "Settings"@, 0);
}

/// The settings are those of the first file whose text can be read; where there
/// is none, they say nothing.
pub proof fn law_first_file_has_the_settings(files: Seq<Vec<u8>>, at: int, xml: Seq<char>)
    ensures
        0 <= at < files.len() && file_text(files[at]@) == Ok::<_, Seq<char>>(xml) && (forall|j: int|
            0 <= j < at ==> file_text((#[trigger] files[j])@) is Err) ==> settings_of(files, 0)
            == settings_in(document_of(without_leading(xml, '\u{feff}'))),
        (forall|j: int| 0 <= j < files.len() ==> file_text((#[trigger] files[j])@) is Err)
            ==> settings_of(files, 0).port is None && settings_of(files, 0).username.len() == 0
            && settings_of(files, 0).password.len() == 0,
        settings_in(None).port is None && settings_in(None).username.len() == 0 && settings_in(
            None,
        ).password.len() == 0,
{
    if 0 <= at < files.len() && file_text(files[at]@) == Ok::<_, Seq<char>>(xml) && (forall|j: int|
        0 <= j < at ==> file_text((#[trigger] files[j])@) is Err) {
        lemma_settings_of(files, 0, at);
    }
    if forall|j: int| 0 <= j < files.len() ==> file_text((#[trigger] files[j])@) is Err {
        lemma_settings_of(files, 0, files.len() as int);
    }
}

proof fn lemma_settings_of(files: Seq<Vec<u8>>, from: int, at: int)
    requires
        0 <= from <= at <= files.len(),
        forall|j: int| from <= j < at ==> file_text((#[trigger] files[j])@) is Err,
    ensures
        settings_of(files, from) == settings_of(files, at),
    decreases at - from,
{
    if from < at {
        lemma_settings_of(files, from + 1, at);
    }
}

/// Tried are the two usual ports, that of the settings and that of the
/// environment, each once and in ascending order, and no others.
pub proof fn law_ports_are_tried_in_order(
    ports: Seq<u16>,
    from_settings: Option<u16>,
    from_environment: Option<u16>,
    port: u16,
)
    requires
        are_tried(ports, from_settings, from_environment),
    ensures
        ports.contains(port) <==> port == 8080 || port == 2333 || from_settings == Some(port)
            || from_environment == Some(port),
        forall|i: int, j: int| 0 <= i < j < ports.len() ==> ports[i] < ports[j],
{
}

/// A port is a number in decimal that a port may be.
pub proof fn law_ports_are_decimal_numbers(text: Seq<char>, port: u16)
    ensures
        decimal_value(encode_utf8(text), 65535) == Some(port as nat) <==> port_in(text) == Some(
            port,
        ),
{
}

} // verus!
