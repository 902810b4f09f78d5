//! The executable of BitComet: which file it is, its version, and whether the
//! version is recent enough.

use vstd::prelude::*;
use vstd::string::*;

use crate::number::{decimal, decimal_text};
use crate::outside::same_text;
use crate::text::{joined, lower, same_ignoring_case, to_lower};
use crate::util::PathFacts;

verus! {

/// The four numbers of a file version.
pub type Version = (u16, u16, u16, u16);

/// A file that may be the executable of BitComet: what the file system says
/// of its path, and the version that stands in it.
#[derive(Debug)]
pub struct Executable {
    pub facts: PathFacts,
    pub version: Option<Version>,
}

/// Whether a path leads to a file with one of the two names of the
/// executable.
pub open spec fn names_bitcomet(facts: PathFacts) -> bool {
    &&& facts.is_file
    &&& facts.file_name matches Some(name) && (lower(name@) == "bitcomet.exe"@ || lower(name@)
        == "bitcomet_x64.exe"@)
}

/// Tells whether a path leads to the executable.
pub fn is_executable(facts: &PathFacts) -> (r: bool)
    ensures
        r == names_bitcomet(*facts),
{
    match &facts.file_name {
        Some(name) => {
            let name = to_lower(name);
            (same_text(&name, "bitcomet.exe") || same_text(&name, "bitcomet_x64.exe"))
                && facts.is_file
        },
        None => false,
    }
}

/// The version of the executable, where the file is one.
pub open spec fn version_in(file: Executable) -> Option<Version> {
    if names_bitcomet(file.facts) {
        file.version
    } else {
        None
    }
}

/// The version of the executable, where the file is one.
pub fn executable_version(file: &Executable) -> (r: Option<Version>)
    ensures
        r == version_in(*file),
{
    if is_executable(&file.facts) {
        file.version
    } else {
        None
    }
}

/// The numbers of a version that is given as two double words, the more
/// significant one first.
pub fn version_parts(most: u32, least: u32) -> (r: Version)
    ensures
        most == r.0 as u32 * 0x1_0000 + r.1,
        least == r.2 as u32 * 0x1_0000 + r.3,
{
    (
        (most / 0x1_0000) as u16,
        (most % 0x1_0000) as u16,
        (least / 0x1_0000) as u16,
        (least % 0x1_0000) as u16,
    )
}

/// A version in writing: two numbers, or three where there is more than two.
pub open spec fn version_text(parts: Version) -> Seq<char> {
    let short = decimal_text(parts.0 as nat) + "."@ + decimal_text(parts.1 as nat);
    if parts.2 == 0 && parts.3 == 0 {
        short
    } else {
        short + "."@ + decimal_text(parts.2 as nat)
    }
}

/// The version of the executable, in writing.
pub open spec fn version_of(file: Executable) -> Option<Seq<char>> {
    match version_in(file) {
        Some(parts) => Some(version_text(parts)),
        None => None,
    }
}

/// Writes the version of the executable, where the file is one.
pub fn version(file: &Executable) -> (r: Option<String>)
    ensures
        crate::text::optional(r) == version_of(*file),
{
    match executable_version(file) {
        Some(parts) => {
            let mut text = decimal(parts.0 as u64);
            text.append(".");
            text.append(&decimal(parts.1 as u64));
            if parts.2 != 0 || parts.3 != 0 {
                text.append(".");
                text.append(&decimal(parts.2 as u64));
            }
            Some(text)
        },
        None => None,
    }
}

/// Whether a version is above 2.9.
pub open spec fn above_minimum(parts: Version) -> bool {
    parts.0 > 2 || (parts.0 == 2 && parts.1 > 9)
}

/// Tells whether a version is recent enough.
pub fn version_parts_supported(value: Version) -> (r: bool)
    ensures
        r == above_minimum(value),
{
    value.0 > 2 || (value.0 == 2 && value.1 > 9)
}

/// Whether a file is the executable, in a version that is recent enough.
pub open spec fn supported(file: Executable) -> bool {
    version_in(file) matches Some(parts) && above_minimum(parts)
}

/// Tells whether a file is the executable, in a version that is recent
/// enough.
pub fn is_supported(file: &Executable) -> (r: bool)
    ensures
        r == supported(*file),
{
    match executable_version(file) {
        Some(parts) => version_parts_supported(parts),
        None => false,
    }
}

/// What is wrong with the version of the executable. A file that is not the
/// executable has no version to find fault with.
pub open spec fn version_fault(file: Executable) -> Option<Seq<char>> {
    if !names_bitcomet(file.facts) || supported(file) {
        None
    } else {
        match version_of(file) {
            Some(current) => Some("BitComet 版本必须高于 2.09，当前版本为 "@ + current),
            None => Some("无法读取 BitComet 版本，要求版本高于 2.09"@),
        }
    }
}

/// Says what is wrong with the version of the executable.
pub fn version_requirement_error(file: &Executable) -> (r: Option<String>)
    ensures
        crate::text::optional(r) == version_fault(*file),
{
    if !is_executable(&file.facts) {
        return None;
    }
    match version(file) {
        Some(current) => if !is_supported(file) {
            Some(joined("BitComet 版本必须高于 2.09，当前版本为 ", &current))
        } else {
            None
        },
        None => Some("无法读取 BitComet 版本，要求版本高于 2.09".to_string()),
    }
}

/// A supported executable has a version without fault, and one that is not
/// supported has a fault: the two questions never disagree.
pub proof fn law_fault_iff_unsupported(file: Executable)
    requires
        names_bitcomet(file.facts),
    ensures
        version_fault(file) is None <==> supported(file),
{
}

/// The names that the executable has in its folder, the preferred one first.
pub fn executable_names() -> (r: Vec<String>)
    ensures
        crate::text::texts(r@) == seq!["BitComet_x64.exe"@, "BitComet.exe"@],
{
    let names = vec!["BitComet_x64.exe".to_string(), "BitComet.exe".to_string()];
    assert(crate::text::texts(names@) =~= seq!["BitComet_x64.exe"@, "BitComet.exe"@]);
    names
}

/// The first path that leads to the executable, from one on, or the number of
/// paths.
pub open spec fn first_executable(candidates: Seq<PathFacts>, from: int) -> int
    decreases candidates.len() - from,
{
    if from < 0 || from >= candidates.len() {
        candidates.len() as int
    } else if names_bitcomet(candidates[from]) {
        from
    } else {
        first_executable(candidates, from + 1)
    }
}

/// Finds the executable in a folder, given what the file system says of each
/// of its names there.
pub fn find_in_directory(candidates: &Vec<PathFacts>) -> (r: Option<String>)
    ensures
        crate::text::optional(r) == ({
            let found = first_executable(candidates@, 0);
            if found < candidates@.len() {
                Some(candidates@[found].path@)
            } else {
                None
            }
        }),
{
    let mut i: usize = 0;
    while i < candidates.len()
        invariant
            i <= candidates@.len(),
            first_executable(candidates@, 0) == first_executable(candidates@, i as int),
        decreases candidates@.len() - i,
    {
        if is_executable(&candidates[i]) {
            return Some(candidates[i].path.clone());
        }
        i += 1;
    }
    None
}

/// Whether a path is not, but for the case of letters, one that came before.
pub open spec fn is_new_path(candidates: Seq<Executable>, at: int) -> bool {
    forall|j: int|
        0 <= j < at ==> lower((#[trigger] candidates[j]).facts.path@) != lower(
            candidates[at].facts.path@,
        )
}

/// The first candidate, from one on, that did not come before and is a
/// supported executable, or the number of candidates.
pub open spec fn first_supported(candidates: Seq<Executable>, from: int) -> int
    decreases candidates.len() - from,
{
    if from < 0 || from >= candidates.len() {
        candidates.len() as int
    } else if is_new_path(candidates, from) && supported(candidates[from]) {
        from
    } else {
        first_supported(candidates, from + 1)
    }
}

/// The path of the executable that is used: the first of the candidates that
/// is supported, or nothing.
pub open spec fn detected(candidates: Seq<Executable>) -> Seq<char> {
    let found = first_supported(candidates, 0);
    if found < candidates.len() {
        candidates[found].facts.path@
    } else {
        Seq::empty()
    }
}

fn came_before(candidates: &Vec<Executable>, at: usize) -> (r: bool)
    requires
        at < candidates@.len(),
    ensures
        r == !is_new_path(candidates@, at as int),
{
    let mut i: usize = 0;
    while i < at
        invariant
            i <= at < candidates@.len(),
            forall|j: int|
                0 <= j < i ==> lower((#[trigger] candidates@[j]).facts.path@) != lower(
                    candidates@[at as int].facts.path@,
                ),
        decreases at - i,
    {
        if same_ignoring_case(&candidates[i].facts.path, &candidates[at].facts.path) {
            return true;
        }
        i += 1;
    }
    false
}

/// Chooses the executable that is used among candidates.
pub fn detect(candidates: &Vec<Executable>) -> (r: String)
    ensures
        r@ == detected(candidates@),
{
    let mut i: usize = 0;
    while i < candidates.len()
        invariant
            i <= candidates@.len(),
            first_supported(candidates@, 0) == first_supported(candidates@, i as int),
        decreases candidates@.len() - i,
    {
        if !came_before(candidates, i) && is_supported(&candidates[i]) {
            return candidates[i].facts.path.clone();
        }
        i += 1;
    }
    String::new()
}

/// What is detected is a candidate, is supported, and nothing is detected
/// only where no candidate is a supported executable with a path.
pub proof fn law_detection_is_sound_and_complete(candidates: Seq<Executable>)
    requires
        forall|i: int| 0 <= i < candidates.len() ==> (#[trigger] candidates[i]).facts.path@.len() > 0,
        // What the file system says of a path does not depend on the case of its letters.
        forall|i: int, j: int|
            0 <= i < candidates.len() && 0 <= j < candidates.len() && lower(
                (#[trigger] candidates[i]).facts.path@,
            ) == lower((#[trigger] candidates[j]).facts.path@) ==> supported(candidates[i])
                == supported(candidates[j]),
    ensures
        detected(candidates).len() > 0 ==> exists|i: int|
            0 <= i < candidates.len() && supported(#[trigger] candidates[i])
                && candidates[i].facts.path@ == detected(candidates),
        detected(candidates).len() == 0 ==> forall|i: int|
            0 <= i < candidates.len() ==> !supported(#[trigger] candidates[i]),
{
    lemma_first_supported(candidates, 0);
    if detected(candidates).len() == 0 {
        assert forall|i: int| 0 <= i < candidates.len() implies !supported(
            #[trigger] candidates[i],
        ) by {
            lemma_nothing_supported(candidates, i);
        }
    }
}

proof fn lemma_first_supported(candidates: Seq<Executable>, from: int)
    requires
        0 <= from <= candidates.len(),
    ensures
        from <= first_supported(candidates, from) <= candidates.len(),
        first_supported(candidates, from) < candidates.len() ==> supported(
            candidates[first_supported(candidates, from)],
        ),
        forall|i: int|
            from <= i < first_supported(candidates, from) ==> !(is_new_path(candidates, i)
                && supported(#[trigger] candidates[i])),
    decreases candidates.len() - from,
{
    if from < candidates.len() {
        lemma_first_supported(candidates, from + 1);
    }
}

proof fn lemma_nothing_supported(candidates: Seq<Executable>, at: int)
    requires
        0 <= at < candidates.len(),
        first_supported(candidates, 0) == candidates.len(),
        forall|i: int, j: int|
            0 <= i < candidates.len() && 0 <= j < candidates.len() && lower(
                (#[trigger] candidates[i]).facts.path@,
            ) == lower((#[trigger] candidates[j]).facts.path@) ==> supported(candidates[i])
                == supported(candidates[j]),
    ensures
        !supported(candidates[at]),
    decreases at,
{
    lemma_first_supported(candidates, 0);
    if !is_new_path(candidates, at) {
        let earlier = choose|j: int|
            0 <= j < at && lower((#[trigger] candidates[j]).facts.path@) == lower(
                candidates[at].facts.path@,
            );
        lemma_nothing_supported(candidates, earlier);
    }
}

} // verus!
