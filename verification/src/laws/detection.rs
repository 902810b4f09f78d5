//! Where BitComet and its files are looked for, and what of that is taken.

use vstd::prelude::*;
use vstd::string::*;

use crate::bitcomet::discovery::{
    are_newest_first, data_places, file_paths, file_places, file_times, folder_in, folder_paths,
    matched_paths, unquoted, usual_places, Folder, FoundFile,
};
use crate::bitcomet::executable::{
    detected, first_executable, first_supported, is_new_path, Executable,
};
use crate::laws::settings::{is_recent_bitcomet, law_recent_versions_are_supported};
use crate::laws::submission::{law_executable_is_told_by_its_name, leads_to_bitcomet};
use crate::laws::texts::{
    is_only, law_one_character_is_taken_off, law_text_behind_its_first_occurrence, stands_nowhere,
    stands_nowhere_before,
};
use crate::laws::words::{law_lower_case_tells_the_same_texts, same_but_case};
use crate::sorting::{goes_down, is_rearrangement, rearranged, stands_in};
use crate::text::{lower, occurs_at, texts, trimmed};
use crate::util::PathFacts;

verus! {

/// In a folder, the first of the candidates that is the executable is found,
/// and none where none is.
pub proof fn law_first_executable_is_found(candidates: Seq<PathFacts>)
    ensures
        ({
            let found = first_executable(candidates, 0);
            &&& found < candidates.len() ==> 0 <= found && leads_to_bitcomet(candidates[found])
            &&& forall|j: int|
                0 <= j < found && j < candidates.len() ==> !leads_to_bitcomet(
                    #[trigger] candidates[j],
                )
            &&& found <= candidates.len()
        }),
{
    lemma_first_executable(candidates, 0);
}

proof fn lemma_first_executable(candidates: Seq<PathFacts>, from: int)
    requires
        0 <= from <= candidates.len(),
    ensures
        ({
            let found = first_executable(candidates, from);
            &&& from <= found <= candidates.len()
            &&& found < candidates.len() ==> leads_to_bitcomet(candidates[found])
            &&& forall|j: int| from <= j < found ==> !leads_to_bitcomet(#[trigger] candidates[j])
        }),
    decreases candidates.len() - from,
{
    if from < candidates.len() {
        law_executable_is_told_by_its_name(candidates[from]);
        lemma_first_executable(candidates, from + 1);
    }
}

/// Whether a candidate has a path that no earlier one has, in any case of its
/// letters.
pub open spec fn comes_first(candidates: Seq<Executable>, at: int) -> bool {
    forall|j: int|
        0 <= j < at ==> !same_but_case(
            (#[trigger] candidates[j]).facts.path@,
            candidates[at].facts.path@,
        )
}

/// Detected is the first candidate that is a recent BitComet, among those the
/// path of which did not come before; and nothing where there is none.
pub proof fn law_first_recent_candidate_is_detected(candidates: Seq<Executable>, at: int)
    ensures
        0 <= at < candidates.len() && is_recent_bitcomet(candidates[at]) && comes_first(
            candidates,
            at,
        ) && (forall|j: int|
            0 <= j < at ==> !(is_recent_bitcomet(#[trigger] candidates[j]) && comes_first(
                candidates,
                j,
            ))) ==> detected(candidates) == candidates[at].facts.path@,
        (forall|j: int|
            0 <= j < candidates.len() ==> !is_recent_bitcomet(#[trigger] candidates[j]))
            ==> detected(candidates).len() == 0,
{
    lemma_first_recent(candidates, 0);
}

proof fn lemma_first_recent(candidates: Seq<Executable>, from: int)
    requires
        0 <= from <= candidates.len(),
    ensures
        ({
            let found = first_supported(candidates, from);
            &&& from <= found <= candidates.len()
            &&& found < candidates.len() ==> is_recent_bitcomet(candidates[found]) && comes_first(
                candidates,
                found,
            )
            &&& forall|j: int|
                from <= j < found ==> !(is_recent_bitcomet(#[trigger] candidates[j])
                    && comes_first(candidates, j))
        }),
    decreases candidates.len() - from,
{
    if from < candidates.len() {
        let path = candidates[from].facts.path@;
        law_recent_versions_are_supported(candidates[from]);
        assert forall|j: int| 0 <= j < from implies same_but_case(
            (#[trigger] candidates[j]).facts.path@,
            path,
        ) == (lower(candidates[j].facts.path@) == lower(path)) by {
            law_lower_case_tells_the_same_texts(candidates[j].facts.path@, path);
        }
        assert(is_new_path(candidates, from) == comes_first(candidates, from));
        lemma_first_recent(candidates, from + 1);
    }
}

/// What matches in a listing of the registry gives one path each, in its order.
pub proof fn law_matches_give_paths(matches: Seq<Seq<char>>)
    ensures
        matched_paths(matches, 0).len() == matches.len(),
        forall|i: int|
            0 <= i < matches.len() ==> #[trigger] matched_paths(matches, 0)[i] == seq![
                unquoted(matches[i]),
            ],
{
    lemma_matched_paths(matches, 0);
}

proof fn lemma_matched_paths(matches: Seq<Seq<char>>, from: int)
    requires
        0 <= from <= matches.len(),
    ensures
        matched_paths(matches, from).len() == matches.len() - from,
        forall|i: int|
            0 <= i < matches.len() - from ==> #[trigger] matched_paths(matches, from)[i] == seq![
                unquoted(matches[from + i]),
            ],
    decreases matches.len() - from,
{
    if from < matches.len() {
        lemma_matched_paths(matches, from + 1);
        assert forall|i: int| 0 <= i < matches.len() - from implies #[trigger] matched_paths(
            matches,
            from,
        )[i] == seq![unquoted(matches[from + i])] by {
            if i > 0 {
                assert(matched_paths(matches, from + 1)[i - 1] == seq![
                    unquoted(matches[from + 1 + (i - 1)]),
                ]);
            }
        }
    }
}

/// A path is freed of the quotation marks around it.
pub proof fn law_quotation_marks_are_taken_off(
    before: Seq<char>,
    path: Seq<char>,
    behind: Seq<char>,
)
    requires
        is_only(before, '"'),
        is_only(behind, '"'),
        path.len() > 0,
        path[0] != '"',
        path.last() != '"',
    ensures
        unquoted(before + path + behind) == path,
{
    assert(before + path + behind =~= before + (path + behind));
    law_one_character_is_taken_off(before, path + behind, '"');
    law_one_character_is_taken_off(behind, path, '"');
}

/// A line that tells where BitComet is installed gives the folder behind the
/// type of the value; any other line gives none.
pub proof fn law_installed_folder_is_read(
    line: Seq<char>,
    before: Seq<char>,
    folder: Seq<char>,
    at: int,
)
    ensures
        line == before + "REG_SZ"@ + folder && stands_nowhere_before(
            line,
            "REG_SZ"@,
            before.len() as int,
        ) && occurs_at(line, "InstallLocation"@, at) ==> folder_in(line) == Some(trimmed(folder)),
        stands_nowhere(line, "REG_SZ"@) ==> folder_in(line) is None,
        stands_nowhere(line, "InstallLocation"@) ==> folder_in(line) is None,
{
    law_text_behind_its_first_occurrence(before, "REG_SZ"@, folder);
    law_text_behind_its_first_occurrence(line, "REG_SZ"@, folder);
}

/// The lines of a listing give their folders one after the other: in each, both
/// executables are looked for, that for 64 bits first.
pub proof fn law_folders_of_all_lines_are_looked_in(
    line: Seq<char>,
    first: Seq<Seq<char>>,
    second: Seq<Seq<char>>,
)
    ensures
        folder_paths(first + second, 0) == folder_paths(first, 0) + folder_paths(second, 0),
        folder_in(line) is None ==> folder_paths(seq![line], 0).len() == 0,
        folder_in(line) matches Some(folder) ==> folder_paths(seq![line], 0) == seq![
            seq![folder, "BitComet_x64.exe"@],
            seq![folder, "BitComet.exe"@],
        ],
{
    lemma_folder_paths(first, second, 0);
    reveal_with_fuel(folder_paths, 2);
    assert(seq![line].len() == 1 && seq![line][0] == line);
    if let Some(folder) = folder_in(line) {
        let pair = seq![seq![folder, "BitComet_x64.exe"@], seq![folder, "BitComet.exe"@]];
        assert(folder_paths(seq![line], 0) =~= pair);
    }
}

proof fn lemma_folder_paths(first: Seq<Seq<char>>, second: Seq<Seq<char>>, from: int)
    requires
        0 <= from <= first.len(),
    ensures
        folder_paths(first + second, from) == folder_paths(first, from) + folder_paths(second, 0),
    decreases first.len() - from,
{
    let both = first + second;
    if from < first.len() {
        lemma_folder_paths(first, second, from + 1);
        assert(both[from] == first[from]);
        assert(folder_paths(both, from) =~= folder_paths(first, from) + folder_paths(second, 0));
    } else {
        lemma_folder_paths_behind(first, second, 0);
        assert(folder_paths(first, from) =~= Seq::empty());
        assert(folder_paths(both, from) =~= folder_paths(first, from) + folder_paths(second, 0));
    }
}

proof fn lemma_folder_paths_behind(first: Seq<Seq<char>>, second: Seq<Seq<char>>, from: int)
    requires
        0 <= from <= second.len(),
    ensures
        folder_paths(first + second, first.len() + from) == folder_paths(second, from),
    decreases second.len() - from,
{
    if from < second.len() {
        lemma_folder_paths_behind(first, second, from + 1);
        assert((first + second)[first.len() + from] == second[from]);
    }
}

/// Below a folder of the system, BitComet is looked for in the folders that it
/// is installed in and in the folder itself, in each with the executable for
/// 64 bits first.
pub proof fn law_usual_places_are_below_the_root(
    root: Seq<char>,
    below: Seq<Seq<char>>,
    i: int,
    j: int,
)
    requires
        0 <= i < 3,
        0 <= j < 2,
    ensures
        usual_places(None, below).len() == 0,
        usual_places(Some(root), below).len() == 6,
        usual_places(Some(root), below)[2 * i + j] == seq![root] + below + seq![
            seq!["BitComet"@, "BitComet_x64"@, Seq::empty()][i],
            seq!["BitComet_x64.exe"@, "BitComet.exe"@][j],
        ],
{
}

/// A file of BitComet is looked for beside the executable, then where the
/// system redirects it to, then among the data of applications, as far as there
/// is such a place.
pub proof fn law_files_are_looked_for_in_order(
    folder: Folder,
    local: Seq<char>,
    shared: Seq<char>,
    file_name: Seq<char>,
)
    ensures
        ({
            let beside = seq![folder.path@, file_name];
            let redirected = seq![local, "VirtualStore"@] + texts(folder.names@) + seq![file_name];
            let among = seq![shared, "BitComet"@, file_name];
            &&& data_places(Some(folder), Some(local), Some(shared), file_name) == seq![
                beside,
                redirected,
                among,
            ]
            &&& data_places(Some(folder), Some(local), None, file_name) == seq![beside, redirected]
            &&& data_places(Some(folder), None, Some(shared), file_name) == seq![beside, among]
            &&& data_places(Some(folder), None, None, file_name) == seq![beside]
            &&& data_places(None, Some(local), Some(shared), file_name) == seq![among]
            &&& data_places(None, None, Some(shared), file_name) == seq![among]
            &&& data_places(None, Some(local), None, file_name).len() == 0
            &&& data_places(None, None, None, file_name).len() == 0
        }),
{
    let beside = seq![folder.path@, file_name];
    let redirected = seq![local, "VirtualStore"@] + texts(folder.names@) + seq![file_name];
    let among = seq![shared, "BitComet"@, file_name];
    assert(data_places(Some(folder), Some(local), Some(shared), file_name) =~= seq![
        beside,
        redirected,
        among,
    ]);
    assert(data_places(Some(folder), Some(local), None, file_name) =~= seq![beside, redirected]);
    assert(data_places(Some(folder), None, Some(shared), file_name) =~= seq![beside, among]);
    assert(data_places(Some(folder), None, None, file_name) =~= seq![beside]);
    assert(data_places(None, Some(local), Some(shared), file_name) =~= seq![among]);
    assert(data_places(None, None, Some(shared), file_name) =~= seq![among]);
}

/// Whether one file was written before another, as far as that is known of
/// both; one of which it is not known counts as written before.
pub open spec fn is_older(left: FoundFile, right: FoundFile) -> bool {
    match (left.modified, right.modified) {
        (Some(left), Some(right)) => left < right,
        (None, Some(_)) => true,
        _ => false,
    }
}

/// Whether places are those of all files among candidates.
pub open spec fn are_all_files(candidates: Seq<FoundFile>, places: Seq<int>) -> bool {
    &&& forall|i: int|
        0 <= i < places.len() ==> 0 <= #[trigger] places[i] < candidates.len()
            && candidates[places[i]].is_file
    &&& forall|i: int, j: int| 0 <= i < j < places.len() ==> places[i] != places[j]
    &&& forall|at: int|
        0 <= at < candidates.len() && (#[trigger] candidates[at]).is_file ==> places.contains(at)
}

/// The files among candidates are taken, each once, and no older one before a
/// newer one.
pub proof fn law_newest_files_come_first(candidates: Seq<FoundFile>, paths: Seq<Seq<char>>)
    requires
        are_newest_first(candidates, paths),
    ensures
        exists|places: Seq<int>| #[trigger]
            are_all_files(candidates, places) && places.len() == paths.len() && (forall|i: int|
                0 <= i < places.len() ==> #[trigger] paths[i] == candidates[places[i]].path@) && (
            forall|i: int, j: int|
                0 <= i < j < places.len() ==> !is_older(
                    candidates[#[trigger] places[i]],
                    candidates[#[trigger] places[j]],
                )),
{
    let order = choose|order: Seq<usize>| #[trigger]
        is_rearrangement(order, file_times(candidates).len() as int) && goes_down(
            file_times(candidates),
            order,
        ) && paths == rearranged(file_paths(candidates), order);
    let found = file_places(candidates, 0);
    lemma_file_places(candidates, 0);
    let places = Seq::new(order.len(), |i: int| found[order[i] as int]);
    assert forall|i: int| 0 <= i < places.len() implies 0 <= #[trigger] places[i]
        < candidates.len() && candidates[places[i]].is_file by {
        assert(0 <= order[i] < found.len());
        assert(0 <= found[order[i] as int] < candidates.len());
    }
    assert forall|at: int|
        0 <= at < candidates.len() && (#[trigger] candidates[at]).is_file implies places.contains(
        at,
    ) by {
        assert(found.contains(at));
        let k = choose|k: int| 0 <= k < found.len() && found[k] == at;
        assert(stands_in(order, k));
        let i = choose|i: int| 0 <= i < order.len() && #[trigger] order[i] == k;
        assert(places[i] == at);
    }
    assert forall|i: int, j: int| 0 <= i < j < places.len() implies places[i] != places[j] by {
        assert(order[i] != order[j]);
    }
    assert(are_all_files(candidates, places));
    assert forall|i: int, j: int| 0 <= i < j < places.len() implies !is_older(
        candidates[#[trigger] places[i]],
        candidates[#[trigger] places[j]],
    ) by {
        let keys = file_times(candidates);
        assert(order[i] < found.len() && order[j] < found.len());
        assert(keys[order[i] as int] == candidates[places[i]].modified);
        assert(keys[order[j] as int] == candidates[places[j]].modified);
    }
}

proof fn lemma_file_places(candidates: Seq<FoundFile>, from: int)
    requires
        0 <= from <= candidates.len(),
    ensures
        ({
            let places = file_places(candidates, from);
            &&& forall|i: int|
                0 <= i < places.len() ==> from <= #[trigger] places[i] < candidates.len()
                    && candidates[places[i]].is_file
            &&& forall|i: int, j: int| 0 <= i < j < places.len() ==> places[i] != places[j]
            &&& forall|at: int|
                from <= at < candidates.len() && (#[trigger] candidates[at]).is_file
                    ==> places.contains(at)
        }),
    decreases candidates.len() - from,
{
    if from < candidates.len() {
        lemma_file_places(candidates, from + 1);
        let rest = file_places(candidates, from + 1);
        let places = file_places(candidates, from);
        if candidates[from].is_file {
            assert(places =~= seq![from] + rest);
            assert(places[0] == from);
            assert forall|at: int|
                from <= at < candidates.len() && (#[trigger] candidates[at]).is_file implies
                places.contains(at) by {
                if at > from {
                    let k = choose|k: int| 0 <= k < rest.len() && rest[k] == at;
                    assert(places[k + 1] == at);
                }
            }
        }
    }
}

} // verus!
