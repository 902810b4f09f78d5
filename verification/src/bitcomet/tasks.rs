//! The tasks that BitComet writes to its files: the encodings of those files
//! and the tasks in them.

use vstd::prelude::*;
use vstd::string::*;
use vstd::utf8::*;

use crate::bitcomet::executable::{is_executable, names_bitcomet};
use crate::models::{BitCometTask, TaskView};
use crate::number::{decimal_value, parse_decimal};
use crate::outside::{same_text, text_from_utf8, utf8_fault_of};
use crate::text::{
    lemma_char_range, lower, outcome, same_ignoring_case, to_lower, trim, trim_leading, trim_trailing, trimmed,
    without_leading, without_trailing,
};
use crate::util::PathFacts;
use crate::xml::{
    attribute, attribute_of, document_of, find_attribute, find_child_of, first_attribute,
    first_child_of, nodes_view, read_document, NodeView, XmlNode,
};

verus! {

/// The code unit at a place in bytes that come in pairs.
pub open spec fn unit_at(bytes: Seq<u8>, at: int, little_endian: bool) -> u16 {
    if little_endian {
        (bytes[2 * at] + 256 * bytes[2 * at + 1]) as u16
    } else {
        (256 * bytes[2 * at] + bytes[2 * at + 1]) as u16
    }
}

/// The code units that bytes stand for.
pub open spec fn units_of(bytes: Seq<u8>, little_endian: bool) -> Seq<u16> {
    Seq::new(bytes.len() / 2, |i: int| unit_at(bytes, i, little_endian))
}

/// Whether a code unit is the first of a pair.
pub open spec fn is_high(unit: u16) -> bool {
    0xd800 <= unit <= 0xdbff
}

/// Whether a code unit is the second of a pair.
pub open spec fn is_low(unit: u16) -> bool {
    0xdc00 <= unit <= 0xdfff
}

/// The character that a pair of code units stands for.
pub open spec fn paired(high: u16, low: u16) -> char {
    (0x1_0000 + (high - 0xd800) * 0x400 + (low - 0xdc00)) as char
}

/// The text that UTF-16 stands for, unless half of a pair stands alone in it.
pub open spec fn utf16_text(units: Seq<u16>) -> Option<Seq<char>>
    decreases units.len(),
{
    if units.len() == 0 {
        Some(Seq::empty())
    } else if !is_high(units[0]) && !is_low(units[0]) {
        match utf16_text(units.skip(1)) {
            Some(rest) => Some(seq![units[0] as char] + rest),
            None => None,
        }
    } else if is_high(units[0]) && units.len() > 1 && is_low(units[1]) {
        match utf16_text(units.skip(2)) {
            Some(rest) => Some(seq![paired(units[0], units[1])] + rest),
            None => None,
        }
    } else {
        None
    }
}

/// The text that bytes stand for as UTF-16, or why they stand for none.
pub open spec fn utf16_decoded(bytes: Seq<u8>, little_endian: bool) -> Result<
    Seq<char>,
    Seq<char>,
> {
    if bytes.len() % 2 != 0 {
        Err("Invalid UTF-16 XML length"@)
    } else {
        match utf16_text(units_of(bytes, little_endian)) {
            Some(text) => Ok(text),
            None => Err("invalid utf-16: lone surrogate found"@),
        }
    }
}

/// Whether one of the bytes in the odd places at the beginning is zero, as in
/// UTF-16 without a byte order mark.
pub open spec fn has_odd_zero(bytes: Seq<u8>) -> bool {
    exists|i: int| 0 <= i < bytes.len() && i < 64 && i % 2 == 1 && #[trigger] bytes[i] == 0
}

/// The text in a file of BitComet: in UTF-16 where the bytes say so, else in
/// UTF-8.
pub open spec fn file_text(bytes: Seq<u8>) -> Result<Seq<char>, Seq<char>> {
    if bytes.len() >= 2 && bytes[0] == 0xff && bytes[1] == 0xfe {
        utf16_decoded(bytes.skip(2), true)
    } else if bytes.len() >= 2 && bytes[0] == 0xfe && bytes[1] == 0xff {
        utf16_decoded(bytes.skip(2), false)
    } else if has_odd_zero(bytes) {
        utf16_decoded(bytes, true)
    } else if valid_utf8(bytes) {
        Ok(decode_utf8(bytes))
    } else {
        Err(utf8_fault_of(bytes))
    }
}

fn read_units(bytes: &[u8], start: usize, little_endian: bool) -> (r: Vec<u16>)
    requires
        start <= bytes@.len(),
    ensures
        r@ == units_of(bytes@.skip(start as int), little_endian),
{
    let length: usize = bytes.len();
    let mut units: Vec<u16> = Vec::new();
    let ghost rest = bytes@.skip(start as int);
    let mut at: usize = start;
    while length - at >= 2
        invariant
            length == bytes@.len(),
            start <= at <= length,
            at == start + 2 * units@.len(),
            rest == bytes@.skip(start as int),
            units@ == units_of(rest, little_endian).take(units@.len() as int),
            units@.len() <= rest.len() / 2,
        decreases length - at,
    {
        let first = bytes[at] as u16;
        let second = bytes[at + 1] as u16;
        let ghost n = units@.len() as int;
        assert(rest[2 * n] == first && rest[2 * n + 1] == second);
        let unit: u16 = if little_endian {
            first + 256 * second
        } else {
            256 * first + second
        };
        units.push(unit);
        assert(units_of(rest, little_endian).take(n + 1) =~= units_of(rest, little_endian).take(
            n,
        ).push(unit));
        at += 2;
    }
    assert(units_of(rest, little_endian).take(units@.len() as int) =~= units_of(
        rest,
        little_endian,
    ));
    units
}

fn decode_units(units: &Vec<u16>) -> (r: Option<String>)
    ensures
        crate::text::optional(r) == utf16_text(units@),
{
    let mut text = String::new();
    let mut at: usize = 0;
    assert(units@.skip(0) =~= units@);
    assert(utf16_text(units@) matches Some(all) ==> text@ + all =~= all);
    while at < units.len()
        invariant
            at <= units@.len(),
            utf16_text(units@) == match utf16_text(units@.skip(at as int)) {
                Some(rest) => Some(text@ + rest),
                None => None,
            },
        decreases units@.len() - at,
    {
        let ghost rest = units@.skip(at as int);
        let unit = units[at];
        assert(rest[0] == unit);
        assert(rest.skip(1) =~= units@.skip(at + 1));
        if unit < 0xd800 || unit > 0xdfff {
            match char::from_u32(unit as u32) {
                Some(c) => {
                    assert(c == unit as char);
                    proof {
                        if let Some(behind) = utf16_text(units@.skip(at + 1)) {
                            assert(text@ + (seq![c] + behind) =~= text@.push(c) + behind);
                        }
                    }
                    text.push(c);
                },
                None => {
                    return None;
                },
            }
            at += 1;
        } else if unit <= 0xdbff && units.len() - at > 1 && units[at + 1] >= 0xdc00 && units[at + 1]
            <= 0xdfff {
            let low = units[at + 1];
            assert(rest[1] == low);
            assert(rest.skip(2) =~= units@.skip(at + 2));
            let code: u32 = 0x1_0000 + (unit as u32 - 0xd800) * 0x400 + (low as u32 - 0xdc00);
            match char::from_u32(code) {
                Some(c) => {
                    assert(c == paired(unit, low));
                    proof {
                        if let Some(behind) = utf16_text(units@.skip(at + 2)) {
                            assert(text@ + (seq![c] + behind) =~= text@.push(c) + behind);
                        }
                    }
                    text.push(c);
                },
                None => {
                    return None;
                },
            }
            at += 2;
        } else {
            return None;
        }
    }
    assert(text@ + Seq::<char>::empty() =~= text@);
    Some(text)
}

/// Reads bytes, from a place on, as UTF-16.
pub fn decode_utf16(bytes: &[u8], start: usize, little_endian: bool) -> (r: Result<String, String>)
    requires
        start <= bytes@.len(),
    ensures
        outcome(r) == utf16_decoded(bytes@.skip(start as int), little_endian),
{
    if (bytes.len() - start) % 2 != 0 {
        return Err("Invalid UTF-16 XML length".to_string());
    }
    match decode_units(&read_units(bytes, start, little_endian)) {
        Some(text) => Ok(text),
        None => Err("invalid utf-16: lone surrogate found".to_string()),
    }
}

fn odd_zero(bytes: &[u8]) -> (r: bool)
    ensures
        r == has_odd_zero(bytes@),
{
    let length: usize = if bytes.len() < 64 {
        bytes.len()
    } else {
        64
    };
    let mut i: usize = 1;
    while i < length
        invariant
            length <= bytes@.len(),
            length <= 64,
            length == bytes@.len() || length == 64,
            i % 2 == 1,
            forall|j: int| 0 <= j < i && j < length && j % 2 == 1 ==> #[trigger] bytes@[j] != 0,
        decreases 65 - i,
    {
        if bytes[i] == 0 {
            return true;
        }
        i += 2;
    }
    false
}

/// Reads the text in a file of BitComet.
pub fn read_xml(bytes: &[u8]) -> (r: Result<String, String>)
    ensures
        outcome(r) == file_text(bytes@),
{
    if bytes.len() >= 2 && bytes[0] == 0xff && bytes[1] == 0xfe {
        return decode_utf16(bytes, 2, true);
    }
    if bytes.len() >= 2 && bytes[0] == 0xfe && bytes[1] == 0xff {
        return decode_utf16(bytes, 2, false);
    }
    if odd_zero(bytes) {
        assert(bytes@.skip(0) =~= bytes@);
        return decode_utf16(bytes, 0, true);
    }
    text_from_utf8(bytes)
}

/// The code units of a character.
pub open spec fn char_units(c: char) -> Seq<u16> {
    let code = c as int;
    if code < 0x1_0000 {
        seq![code as u16]
    } else {
        seq![
            (0xd800 + (code - 0x1_0000) / 0x400) as u16,
            (0xdc00 + (code - 0x1_0000) % 0x400) as u16,
        ]
    }
}

/// The code units of a text.
pub open spec fn text_units(text: Seq<char>) -> Seq<u16>
    decreases text.len(),
{
    if text.len() == 0 {
        Seq::empty()
    } else {
        char_units(text[0]) + text_units(text.skip(1))
    }
}

/// The bytes of code units.
pub open spec fn unit_bytes(units: Seq<u16>, little_endian: bool) -> Seq<u8> {
    Seq::new(
        2 * units.len(),
        |i: int|
            if (i % 2 == 0) == little_endian {
                (units[i / 2] % 256) as u8
            } else {
                (units[i / 2] / 256) as u8
            },
    )
}

proof fn lemma_units_read_back(text: Seq<char>)
    ensures
        utf16_text(text_units(text)) == Some(text),
    decreases text.len(),
{
    if text.len() > 0 {
        let rest = text.skip(1);
        lemma_units_read_back(rest);
        lemma_char_range(text[0]);
        let units = text_units(text);
        let first = char_units(text[0]);
        assert(units.skip(first.len() as int) =~= text_units(rest));
        assert(seq![text[0]] + rest =~= text);
        let code = text[0] as int;
        if code < 0x1_0000 {
            assert(units[0] == code);
            assert(units[0] as char == text[0]);
        } else {
            assert(units[0] == 0xd800 + (code - 0x1_0000) / 0x400);
            assert(units[1] == 0xdc00 + (code - 0x1_0000) % 0x400);
            assert(paired(units[0], units[1]) == text[0]);
        }
    } else {
        assert(text =~= Seq::empty());
    }
}

proof fn lemma_unit_bytes_read_back(units: Seq<u16>, little_endian: bool)
    ensures
        units_of(unit_bytes(units, little_endian), little_endian) == units,
{
    let bytes = unit_bytes(units, little_endian);
    assert forall|i: int| 0 <= i < units.len() implies #[trigger] units_of(bytes, little_endian)[i]
        == units[i] by {
        assert(bytes[2 * i] == if little_endian {
            (units[i] % 256) as u8
        } else {
            (units[i] / 256) as u8
        });
        assert(bytes[2 * i + 1] == if little_endian {
            (units[i] / 256) as u8
        } else {
            (units[i] % 256) as u8
        });
    }
    assert(units_of(bytes, little_endian) =~= units);
}

/// A text that is written in UTF-16 behind a byte order mark, in either
/// order, is read back.
pub proof fn law_utf16_file_is_read_back(text: Seq<char>, little_endian: bool)
    ensures
        ({
            let mark = if little_endian {
                seq![0xffu8, 0xfeu8]
            } else {
                seq![0xfeu8, 0xffu8]
            };
            file_text(mark + unit_bytes(text_units(text), little_endian)) == Ok::<_, Seq<char>>(text)
        }),
{
    let mark = if little_endian {
        seq![0xffu8, 0xfeu8]
    } else {
        seq![0xfeu8, 0xffu8]
    };
    let body = unit_bytes(text_units(text), little_endian);
    assert((mark + body).skip(2) =~= body);
    lemma_units_read_back(text);
    lemma_unit_bytes_read_back(text_units(text), little_endian);
}

/// The value of a field of an element: an attribute with one of its names, or
/// a child element, where the attribute `Value` comes before the text.
pub open spec fn field_of(nodes: Seq<NodeView>, node: int, names: Seq<&str>) -> Seq<char> {
    let attributes = nodes[node].attributes;
    let at = find_attribute(attributes, names, 0);
    let child = find_child_of(nodes, node, names, 0);
    if at < attributes.len() {
        trimmed(attributes[at].value)
    } else if child < nodes.len() {
        match attribute_of(nodes[child].attributes, "Value"@, 0) {
            Some(value) => trimmed(value),
            None => match nodes[child].text {
                Some(text) => trimmed(text),
                None => Seq::empty(),
            },
        }
    } else {
        Seq::empty()
    }
}

/// Reads a field of an element.
pub fn field(nodes: &Vec<XmlNode>, node: usize, names: &[&str]) -> (r: String)
    requires
        node < nodes@.len(),
    ensures
        r@ == field_of(nodes_view(nodes@), node as int, names@),
{
    if let Some(at) = first_attribute(&nodes[node], names) {
        return trim(&nodes[node].attributes[at].value);
    }
    if let Some(child) = first_child_of(nodes, node, names) {
        return match attribute(&nodes[child], "Value") {
            Some(value) => trim(&value),
            None => match &nodes[child].text {
                Some(text) => trim(text),
                None => String::new(),
            },
        };
    }
    String::new()
}

/// A text without its commas.
pub open spec fn without_commas(text: Seq<char>) -> Seq<char>
    decreases text.len(),
{
    if text.len() == 0 {
        Seq::empty()
    } else if text.last() == ',' {
        without_commas(text.drop_last())
    } else {
        without_commas(text.drop_last()).push(text.last())
    }
}

/// The number that a text gives, in which commas may stand.
pub open spec fn number_in(text: Seq<char>) -> Option<u64> {
    match decimal_value(encode_utf8(without_commas(text)), u64::MAX as nat) {
        Some(value) => Some(value as u64),
        None => None,
    }
}

fn remove_commas(text: &str) -> (r: String)
    ensures
        r@ == without_commas(text@),
{
    let mut result = String::new();
    for c in iter: text.chars()
        invariant
            iter.seq() == text@,
            result@ == without_commas(iter.seq().take(iter.index() as int)),
    {
        assert(iter.seq().take(iter.index() as int + 1).drop_last() =~= iter.seq().take(
            iter.index() as int,
        ));
        if c != ',' {
            result.push(c);
        }
    }
    assert(text@.take(text@.len() as int) =~= text@);
    result
}

/// Reads a field that holds a number.
pub fn parse_u64_field(nodes: &Vec<XmlNode>, node: usize, names: &[&str]) -> (r: Option<u64>)
    requires
        node < nodes@.len(),
    ensures
        r == number_in(field_of(nodes_view(nodes@), node as int, names@)),
{
    let text = remove_commas(&field(nodes, node, names));
    parse_decimal(text.as_str().as_bytes(), u64::MAX)
}

/// What a text says that stands for yes or no.
pub open spec fn flag_in(text: Seq<char>) -> Option<bool> {
    let word = lower(text);
    if word == "1"@ || word == "true"@ || word == "yes"@ {
        Some(true)
    } else if word == "0"@ || word == "false"@ || word == "no"@ {
        Some(false)
    } else {
        None
    }
}

/// Reads a field that stands for yes or no.
pub fn parse_bool_field(nodes: &Vec<XmlNode>, node: usize, names: &[&str]) -> (r: Option<bool>)
    requires
        node < nodes@.len(),
    ensures
        r == flag_in(field_of(nodes_view(nodes@), node as int, names@)),
{
    let word = to_lower(&field(nodes, node, names));
    if same_text(&word, "1") || same_text(&word, "true") || same_text(&word, "yes") {
        Some(true)
    } else if same_text(&word, "0") || same_text(&word, "false") || same_text(&word, "no") {
        Some(false)
    } else {
        None
    }
}

/// How far a task is, in the words of BitComet.
#[derive(Debug)]
pub enum ProgressReading {
    /// A number of percent, or a share of one where it is not above one.
    Percent(String),
    /// Numbers of tenths of a percent, the first that is a number counts.
    Permille(Vec<String>),
}

/// The contents of a `ProgressReading`.
pub enum ReadingView {
    Percent(Seq<char>),
    Permille(Seq<Seq<char>>),
}

impl View for ProgressReading {
    type V = ReadingView;

    open spec fn view(&self) -> ReadingView {
        match self {
            ProgressReading::Percent(text) => ReadingView::Percent(text@),
            ProgressReading::Permille(list) => ReadingView::Permille(crate::text::texts(list@)),
        }
    }
}

/// A task whose progress has yet to be worked out.
#[derive(Debug)]
pub struct ReportedTask {
    pub task: BitCometTask,
    pub progress: ProgressReading,
}

/// The contents of a `ReportedTask`.
pub struct ReportedView {
    pub task: TaskView,
    pub progress: ReadingView,
}

impl View for ReportedTask {
    type V = ReportedView;

    open spec fn view(&self) -> ReportedView {
        ReportedView { task: self.task@, progress: self.progress@ }
    }
}

/// The contents of several reported tasks.
pub open spec fn reported_view(tasks: Seq<ReportedTask>) -> Seq<ReportedView> {
    Seq::new(tasks.len(), |i: int| tasks[i]@)
}

impl ReportedTask {
    /// The task, with the bits of the percentage that its progress comes to.
    pub fn measured(self, progress_percent: Option<u64>) -> (r: BitCometTask)
        ensures
            r@ == (TaskView { progress_percent, ..self.task@ }),
    {
        let mut task = self.task;
        task.progress_percent = progress_percent;
        task
    }
}

/// The task that an element describes. Without an info hash it is none.
pub open spec fn task_of(nodes: Seq<NodeView>, node: int) -> Option<ReportedView> {
    let info_hash = lower(field_of(nodes, node, ["InfoHashHex", "InfoHash"]@));
    if info_hash.len() == 0 {
        None
    } else {
        Some(
            ReportedView {
                task: TaskView {
                    task_id: Seq::empty(),
                    info_hash,
                    finish_date: field_of(
                        nodes,
                        node,
                        ["FinishDate", "FinishTime", "CompletedTime"]@,
                    ),
                    left: number_in(
                        field_of(nodes, node, ["Left", "LeftSize", "TotalLeft", "DownloadLeft"]@),
                    ),
                    progress_percent: None,
                    completed: flag_in(
                        field_of(nodes, node, ["Completed", "IsCompleted", "Finished"]@),
                    ),
                    status: field_of(nodes, node, ["Status", "TaskStatus"]@),
                    save_name: field_of(nodes, node, ["SaveName"]@),
                    show_name: field_of(nodes, node, ["ShowName", "Name"]@),
                    save_location: field_of(nodes, node, ["SaveLocation", "SavePath"]@),
                },
                progress: ReadingView::Percent(
                    without_trailing(
                        field_of(nodes, node, ["Progress", "ProgressPercent", "Percent"]@),
                        '%',
                    ),
                ),
            },
        )
    }
}

/// Reads the task that an element describes.
pub fn read_task(nodes: &Vec<XmlNode>, node: usize) -> (r: Option<ReportedTask>)
    requires
        node < nodes@.len(),
    ensures
        match r {
            Some(task) => task_of(nodes_view(nodes@), node as int) == Some(task@),
            None => task_of(nodes_view(nodes@), node as int) is None,
        },
{
    let info_hash = to_lower(&field(nodes, node, &["InfoHashHex", "InfoHash"]));
    if info_hash.as_str().is_empty() {
        return None;
    }
    let progress = field(nodes, node, &["Progress", "ProgressPercent", "Percent"]);
    Some(
        ReportedTask {
            task: BitCometTask {
                task_id: String::new(),
                info_hash,
                finish_date: field(nodes, node, &["FinishDate", "FinishTime", "CompletedTime"]),
                left: parse_u64_field(
                    nodes,
                    node,
                    &["Left", "LeftSize", "TotalLeft", "DownloadLeft"],
                ),
                progress_percent: None,
                completed: parse_bool_field(nodes, node, &["Completed", "IsCompleted", "Finished"]),
                status: field(nodes, node, &["Status", "TaskStatus"]),
                save_name: field(nodes, node, &["SaveName"]),
                show_name: field(nodes, node, &["ShowName", "Name"]),
                save_location: field(nodes, node, &["SaveLocation", "SavePath"]),
            },
            progress: ProgressReading::Percent(trim_trailing(&progress, '%')),
        },
    )
}

/// Whether a node is an element with a name, but for the case of letters.
pub open spec fn is_called(node: NodeView, name: Seq<char>) -> bool {
    node.element && lower(node.name) == lower(name)
}

/// The tasks in a document, from a node on.
pub open spec fn tasks_from(nodes: Seq<NodeView>, from: int) -> Seq<ReportedView>
    decreases nodes.len() - from,
{
    if from < 0 || from >= nodes.len() {
        Seq::empty()
    } else {
        let rest = tasks_from(nodes, from + 1);
        if is_called(nodes[from], "Torrent"@) {
            match task_of(nodes, from) {
                Some(task) => seq![task] + rest,
                None => rest,
            }
        } else {
            rest
        }
    }
}

/// Reads the tasks in a document.
pub fn read_task_list(nodes: &Vec<XmlNode>) -> (r: Vec<ReportedTask>)
    ensures
        reported_view(r@) == tasks_from(nodes_view(nodes@), 0),
{
    let ghost view = nodes_view(nodes@);
    let mut tasks: Vec<ReportedTask> = Vec::new();
    let mut i: usize = 0;
    assert(reported_view(tasks@) + tasks_from(view, 0) =~= tasks_from(view, 0));
    while i < nodes.len()
        invariant
            i <= nodes@.len(),
            view == nodes_view(nodes@),
            reported_view(tasks@) + tasks_from(view, i as int) == tasks_from(view, 0),
        decreases nodes@.len() - i,
    {
        if nodes[i].element && same_ignoring_case(&nodes[i].name, "Torrent") {
            if let Some(task) = read_task(nodes, i) {
                let ghost before = tasks@;
                tasks.push(task);
                assert(reported_view(tasks@) =~= reported_view(before).push(task@));
                assert(reported_view(before) + (seq![task@] + tasks_from(view, i + 1))
                    =~= reported_view(tasks@) + tasks_from(view, i + 1));
            }
        }
        i += 1;
    }
    assert(reported_view(tasks@) + tasks_from(view, i as int) =~= reported_view(tasks@));
    tasks
}

/// The tasks in a document, where it is one.
pub open spec fn document_tasks(xml: Seq<char>) -> Option<Seq<ReportedView>> {
    match document_of(without_leading(xml, '\u{feff}')) {
        Some(nodes) => Some(tasks_from(nodes, 0)),
        None => None,
    }
}

/// Reads the tasks in a document, where it is one.
pub fn parse_tasks(xml: &str) -> (r: Option<Vec<ReportedTask>>)
    ensures
        match r {
            Some(tasks) => document_tasks(xml@) == Some(reported_view(tasks@)),
            None => document_tasks(xml@) is None,
        },
{
    match read_document(&trim_leading(xml, '\u{feff}')) {
        Some(nodes) => Some(read_task_list(&nodes)),
        None => None,
    }
}

/// The tasks in a file, where it can be read.
pub open spec fn file_tasks(bytes: Seq<u8>) -> Option<Seq<ReportedView>> {
    match file_text(bytes) {
        Ok(xml) => document_tasks(xml),
        Err(_) => None,
    }
}

/// The tasks in the first of several files, from one on, that can be read.
pub open spec fn first_tasks(files: Seq<Vec<u8>>, from: int) -> Seq<ReportedView>
    decreases files.len() - from,
{
    if from < 0 || from >= files.len() {
        Seq::empty()
    } else {
        match file_tasks(files[from]@) {
            Some(tasks) => tasks,
            None => first_tasks(files, from + 1),
        }
    }
}

/// The tasks that the files of an executable hold, the files in the order in
/// which they are tried. A file that is not the executable has none.
pub open spec fn written_tasks(facts: PathFacts, files: Seq<Vec<u8>>) -> Seq<ReportedView> {
    if names_bitcomet(facts) {
        first_tasks(files, 0)
    } else {
        Seq::empty()
    }
}

/// Reads the tasks that the files of an executable hold.
pub fn read_tasks(facts: &PathFacts, files: &Vec<Vec<u8>>) -> (r: Vec<ReportedTask>)
    ensures
        reported_view(r@) == written_tasks(*facts, files@),
{
    let nothing: Vec<ReportedTask> = Vec::new();
    assert(reported_view(nothing@) =~= Seq::empty());
    if !is_executable(facts) {
        return nothing;
    }
    let mut i: usize = 0;
    while i < files.len()
        invariant
            i <= files@.len(),
            names_bitcomet(*facts),
            first_tasks(files@, 0) == first_tasks(files@, i as int),
        decreases files@.len() - i,
    {
        if let Ok(xml) = read_xml(&files[i]) {
            if let Some(tasks) = parse_tasks(&xml) {
                return tasks;
            }
        }
        i += 1;
    }
    nothing
}

/// The info hashes of tasks, each where it comes first.
pub open spec fn hashes_of(tasks: Seq<ReportedView>) -> Seq<Seq<char>>
    decreases tasks.len(),
{
    if tasks.len() == 0 {
        Seq::empty()
    } else {
        let before = hashes_of(tasks.drop_last());
        if before.contains(tasks.last().task.info_hash) {
            before
        } else {
            before.push(tasks.last().task.info_hash)
        }
    }
}

/// Whether a text is among several.
pub fn has_text(list: &Vec<String>, wanted: &str) -> (r: bool)
    ensures
        r == crate::text::texts(list@).contains(wanted@),
{
    let mut i: usize = 0;
    while i < list.len()
        invariant
            i <= list@.len(),
            forall|j: int| 0 <= j < i ==> #[trigger] crate::text::texts(list@)[j] != wanted@,
        decreases list@.len() - i,
    {
        if same_text(&list[i], wanted) {
            assert(crate::text::texts(list@)[i as int] == wanted@);
            return true;
        }
        i += 1;
    }
    false
}

/// The info hashes of the tasks that the files of an executable hold.
pub fn existing_hashes(facts: &PathFacts, files: &Vec<Vec<u8>>) -> (r: Vec<String>)
    ensures
        crate::text::texts(r@) == hashes_of(written_tasks(*facts, files@)),
{
    let tasks = read_tasks(facts, files);
    let ghost view = reported_view(tasks@);
    let mut hashes: Vec<String> = Vec::new();
    let mut i: usize = 0;
    assert(view.take(0) =~= Seq::empty());
    assert(crate::text::texts(hashes@) =~= Seq::empty());
    while i < tasks.len()
        invariant
            i <= tasks@.len(),
            view == reported_view(tasks@),
            crate::text::texts(hashes@) == hashes_of(view.take(i as int)),
        decreases tasks@.len() - i,
    {
        assert(view.take(i + 1).drop_last() =~= view.take(i as int));
        if !has_text(&hashes, &tasks[i].task.info_hash) {
            let ghost before = hashes@;
            hashes.push(tasks[i].task.info_hash.clone());
            assert(crate::text::texts(hashes@) =~= crate::text::texts(before).push(
                tasks@[i as int].task.info_hash@,
            ));
        }
        i += 1;
    }
    assert(view.take(i as int) =~= view);
    hashes
}

/// No info hash is listed twice, and one is listed exactly where a task has
/// it.
pub proof fn law_hashes_are_a_set(tasks: Seq<ReportedView>)
    ensures
        hashes_of(tasks).no_duplicates(),
        forall|hash: Seq<char>| #[trigger]
            hashes_of(tasks).contains(hash) <==> exists|i: int|
                0 <= i < tasks.len() && (#[trigger] tasks[i]).task.info_hash == hash,
    decreases tasks.len(),
{
    if tasks.len() > 0 {
        let rest = tasks.drop_last();
        let last = tasks.last().task.info_hash;
        law_hashes_are_a_set(rest);
        let before = hashes_of(rest);
        let all = hashes_of(tasks);
        assert forall|hash: Seq<char>| #[trigger] all.contains(hash) <==> (before.contains(hash)
            || hash == last) by {
            if before.contains(hash) {
                let at = before.index_of(hash);
                assert(all[at] == hash);
            }
            if !before.contains(last) {
                assert(all[before.len() as int] == last);
                if all.contains(hash) && hash != last {
                    let at = all.index_of(hash);
                    assert(before[at] == hash);
                }
            }
        }
        assert forall|hash: Seq<char>| #[trigger] all.contains(hash) <==> exists|i: int|
            0 <= i < tasks.len() && (#[trigger] tasks[i]).task.info_hash == hash by {
            if hash == last {
                assert(tasks[tasks.len() - 1].task.info_hash == hash);
            }
            if before.contains(hash) {
                let at = choose|i: int|
                    0 <= i < rest.len() && (#[trigger] rest[i]).task.info_hash == hash;
                assert(tasks[at].task.info_hash == hash);
            }
            if exists|i: int| 0 <= i < tasks.len() && (#[trigger] tasks[i]).task.info_hash == hash {
                let at = choose|i: int|
                    0 <= i < tasks.len() && (#[trigger] tasks[i]).task.info_hash == hash;
                if at < rest.len() {
                    assert(rest[at].task.info_hash == hash);
                }
            }
        }
    }
}

/// What to do while a new task is waited for.
#[derive(Clone, Copy, Debug, PartialEq, Eq, Structural)]
pub enum WaitStep {
    Found,
    TimedOut,
    SleepMillis(u64),
}

/// Decides, given the hashes that are there, whether a task is waited for any
/// longer: a task that is there is found even when the time is up.
pub fn wait_for_task(hashes: &Vec<String>, info_hash: &str, time_is_up: bool) -> (r: WaitStep)
    ensures
        r == if crate::text::texts(hashes@).contains(info_hash@) {
            WaitStep::Found
        } else if time_is_up {
            WaitStep::TimedOut
        } else {
            WaitStep::SleepMillis(250)
        },
{
    if has_text(hashes, info_hash) {
        WaitStep::Found
    } else if time_is_up {
        WaitStep::TimedOut
    } else {
        WaitStep::SleepMillis(250)
    }
}

} // verus!
