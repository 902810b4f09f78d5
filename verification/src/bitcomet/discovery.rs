//! Where BitComet and its files are looked for. Paths are given as the parts
//! that they are joined of.

use vstd::prelude::*;
use vstd::string::*;

use crate::outside::{
    executable_pattern, find_matches, lossy_text_of, matches_of, text_from_utf8_lossy,
};
use crate::sorting::{descending_order, goes_down, is_rearrangement, rearranged};
use crate::text::{
    behind, contains, contains_text, lines, lines_of, optional, text_behind, texts,
    trim, trim_leading, trim_trailing, trimmed, without_leading, without_trailing,
};

verus! {

/// The parts of several paths.
pub open spec fn paths_view(paths: Seq<Vec<String>>) -> Seq<Seq<Seq<char>>> {
    Seq::new(paths.len(), |i: int| texts(paths[i]@))
}

/// The arguments with which `reg.exe` is asked where BitComet may be.
pub fn registry_queries() -> (r: Vec<Vec<String>>)
    ensures
        paths_view(r@) == seq![
            seq!["query"@, r"HKCR\magnet\shell\open\command"@, "/ve"@],
            seq![
                "query"@,
                r"HKCU\Software\Microsoft\Windows\CurrentVersion\Uninstall"@,
                "/s"@,
            ],
            seq![
                "query"@,
                r"HKLM\Software\Microsoft\Windows\CurrentVersion\Uninstall"@,
                "/s"@,
            ],
            seq![
                "query"@,
                r"HKLM\Software\WOW6432Node\Microsoft\Windows\CurrentVersion\Uninstall"@,
                "/s"@,
            ],
        ],
{
    let queries = vec![
        query(r"HKCR\magnet\shell\open\command", "/ve"),
        query(r"HKCU\Software\Microsoft\Windows\CurrentVersion\Uninstall", "/s"),
        query(r"HKLM\Software\Microsoft\Windows\CurrentVersion\Uninstall", "/s"),
        query(r"HKLM\Software\WOW6432Node\Microsoft\Windows\CurrentVersion\Uninstall", "/s"),
    ];
    assert(paths_view(queries@) =~= seq![
        seq!["query"@, r"HKCR\magnet\shell\open\command"@, "/ve"@],
        seq!["query"@, r"HKCU\Software\Microsoft\Windows\CurrentVersion\Uninstall"@, "/s"@],
        seq!["query"@, r"HKLM\Software\Microsoft\Windows\CurrentVersion\Uninstall"@, "/s"@],
        seq![
            "query"@,
            r"HKLM\Software\WOW6432Node\Microsoft\Windows\CurrentVersion\Uninstall"@,
            "/s"@,
        ],
    ]);
    queries
}

fn query(key: &str, option: &str) -> (r: Vec<String>)
    ensures
        texts(r@) == seq!["query"@, key@, option@],
{
    let arguments = vec!["query".to_string(), key.to_string(), option.to_string()];
    assert(texts(arguments@) =~= seq!["query"@, key@, option@]);
    arguments
}

/// A path without the quotation marks around it.
pub open spec fn unquoted(path: Seq<char>) -> Seq<char> {
    without_trailing(without_leading(path, '"'), '"')
}

/// The paths that matches in a listing give, from one on.
pub open spec fn matched_paths(matches: Seq<Seq<char>>, from: int) -> Seq<Seq<Seq<char>>>
    decreases matches.len() - from,
{
    if from < 0 || from >= matches.len() {
        Seq::empty()
    } else {
        seq![seq![unquoted(matches[from])]] + matched_paths(matches, from + 1)
    }
}

/// The folder that a line of a listing gives.
pub open spec fn folder_in(line: Seq<char>) -> Option<Seq<char>> {
    if contains_text(line, "InstallLocation"@) {
        match text_behind(line, "REG_SZ"@) {
            Some(value) => Some(trimmed(value)),
            None => None,
        }
    } else {
        None
    }
}

/// The paths of the executable in the folders that lines give, from one on.
pub open spec fn folder_paths(lines: Seq<Seq<char>>, from: int) -> Seq<Seq<Seq<char>>>
    decreases lines.len() - from,
{
    if from < 0 || from >= lines.len() {
        Seq::empty()
    } else {
        let rest = folder_paths(lines, from + 1);
        match folder_in(lines[from]) {
            Some(folder) => seq![
                seq![folder, "BitComet_x64.exe"@],
                seq![folder, "BitComet.exe"@],
            ] + rest,
            None => rest,
        }
    }
}

fn push_path(paths: &mut Vec<Vec<String>>, parts: Vec<String>)
    ensures
        paths_view(final(paths)@) == paths_view(old(paths)@).push(texts(parts@)),
{
    let ghost before = paths@;
    paths.push(parts);
    assert(paths_view(paths@) =~= paths_view(before).push(texts(parts@)));
}

fn push_pair(paths: &mut Vec<Vec<String>>, folder: &str, name: &str)
    ensures
        paths_view(final(paths)@) == paths_view(old(paths)@).push(seq![folder@, name@]),
{
    let parts = vec![folder.to_string(), name.to_string()];
    assert(texts(parts@) =~= seq![folder@, name@]);
    push_path(paths, parts);
}

/// The candidates in a listing, given what of it looks like the path of the
/// executable.
pub fn listed_candidates(matches: &Vec<String>, listing: &str) -> (r: Vec<Vec<String>>)
    ensures
        paths_view(r@) == matched_paths(texts(matches@), 0) + folder_paths(lines_of(listing@), 0),
{
    let mut paths: Vec<Vec<String>> = Vec::new();
    let ghost found = matched_paths(texts(matches@), 0);
    assert(paths_view(paths@) + found =~= found);
    let mut i: usize = 0;
    while i < matches.len()
        invariant
            i <= matches@.len(),
            found == matched_paths(texts(matches@), 0),
            paths_view(paths@) + matched_paths(texts(matches@), i as int) == found,
        decreases matches@.len() - i,
    {
        let ghost before = paths_view(paths@);
        let ghost rest = matched_paths(texts(matches@), i + 1);
        let path = trim_trailing(&trim_leading(&matches[i], '"'), '"');
        let parts = vec![path];
        assert(texts(parts@) =~= seq![path@]);
        push_path(&mut paths, parts);
        assert(before + (seq![seq![path@]] + rest) =~= paths_view(paths@) + rest);
        i += 1;
    }
    assert(paths_view(paths@) + matched_paths(texts(matches@), i as int) =~= paths_view(paths@));
    let lines = lines(listing);
    let ghost all = folder_paths(texts(lines@), 0);
    let mut i: usize = 0;
    while i < lines.len()
        invariant
            i <= lines@.len(),
            all == folder_paths(texts(lines@), 0),
            paths_view(paths@) + folder_paths(texts(lines@), i as int) == found + all,
        decreases lines@.len() - i,
    {
        let ghost before = paths_view(paths@);
        let ghost rest = folder_paths(texts(lines@), i + 1);
        assert(texts(lines@)[i as int] == lines@[i as int]@);
        if contains(&lines[i], "InstallLocation") {
            if let Some(value) = behind(&lines[i], "REG_SZ") {
                let folder = trim(&value);
                push_pair(&mut paths, &folder, "BitComet_x64.exe");
                push_pair(&mut paths, &folder, "BitComet.exe");
                assert(before + (seq![
                    seq![folder@, "BitComet_x64.exe"@],
                    seq![folder@, "BitComet.exe"@],
                ] + rest) =~= paths_view(paths@) + rest);
            }
        }
        i += 1;
    }
    assert(paths_view(paths@) + folder_paths(texts(lines@), i as int) =~= paths_view(paths@));
    paths
}

/// The candidates in what `reg.exe` has printed.
pub fn registry_candidates(output: &[u8]) -> (r: Vec<Vec<String>>)
    ensures
        ({
            let listing = lossy_text_of(output@);
            paths_view(r@) == matched_paths(matches_of(executable_pattern(), listing), 0)
                + folder_paths(lines_of(listing), 0)
        }),
{
    let listing = text_from_utf8_lossy(output);
    let matches = find_matches(r#"(?i)[A-Z]:\\[^\r\n"]*?BitComet(?:_x64)?\.exe"#, &listing);
    listed_candidates(&matches, &listing)
}

/// The places of the executable below a folder.
pub open spec fn places_below(root: Seq<Seq<char>>) -> Seq<Seq<Seq<char>>> {
    seq![
        root + seq!["BitComet"@, "BitComet_x64.exe"@],
        root + seq!["BitComet"@, "BitComet.exe"@],
        root + seq!["BitComet_x64"@, "BitComet_x64.exe"@],
        root + seq!["BitComet_x64"@, "BitComet.exe"@],
        root + seq![Seq::<char>::empty(), "BitComet_x64.exe"@],
        root + seq![Seq::<char>::empty(), "BitComet.exe"@],
    ]
}

/// The places of the executable below a folder of the system, where there is
/// one.
pub open spec fn usual_places(root: Option<Seq<char>>, below: Seq<Seq<char>>) -> Seq<
    Seq<Seq<char>>,
> {
    match root {
        Some(root) => places_below(seq![root] + below),
        None => Seq::empty(),
    }
}

fn push_place(paths: &mut Vec<Vec<String>>, root: &Vec<String>, folder: &str, name: &str)
    ensures
        paths_view(final(paths)@) == paths_view(old(paths)@).push(
            texts(root@) + seq![folder@, name@],
        ),
{
    let mut parts: Vec<String> = Vec::new();
    let mut i: usize = 0;
    while i < root.len()
        invariant
            i <= root@.len(),
            parts@ == root@.take(i as int),
        decreases root@.len() - i,
    {
        parts.push(root[i].clone());
        i += 1;
    }
    parts.push(folder.to_string());
    parts.push(name.to_string());
    assert(texts(parts@) =~= texts(root@) + seq![folder@, name@]);
    push_path(paths, parts);
}

fn push_places(paths: &mut Vec<Vec<String>>, root: &Option<String>, below: &str)
    ensures
        paths_view(final(paths)@) == paths_view(old(paths)@) + usual_places(
            optional(*root),
            if below@.len() > 0 {
                seq![below@]
            } else {
                Seq::empty()
            },
        ),
{
    let ghost before = paths_view(paths@);
    match root {
        Some(root) => {
            let mut parts: Vec<String> = vec![root.clone()];
            if !below.is_empty() {
                parts.push(below.to_string());
            }
            let ghost prefix = seq![root@] + if below@.len() > 0 {
                seq![below@]
            } else {
                Seq::empty()
            };
            assert(texts(parts@) =~= prefix);
            let nowhere = String::new();
            push_place(paths, &parts, "BitComet", "BitComet_x64.exe");
            push_place(paths, &parts, "BitComet", "BitComet.exe");
            push_place(paths, &parts, "BitComet_x64", "BitComet_x64.exe");
            push_place(paths, &parts, "BitComet_x64", "BitComet.exe");
            push_place(paths, &parts, &nowhere, "BitComet_x64.exe");
            push_place(paths, &parts, &nowhere, "BitComet.exe");
            assert(nowhere@ =~= Seq::<char>::empty());
            assert(paths_view(paths@) =~= before + places_below(prefix));
        },
        None => {
            assert(paths_view(paths@) =~= before + Seq::<Seq<Seq<char>>>::empty());
        },
    }
}

/// The usual places of the executable, given the folders of the system.
pub fn common_candidates(
    program_files: &Option<String>,
    program_files_x86: &Option<String>,
    local_app_data: &Option<String>,
    app_data: &Option<String>,
) -> (r: Vec<Vec<String>>)
    ensures
        paths_view(r@) == usual_places(optional(*program_files), Seq::empty()) + usual_places(
            optional(*program_files_x86),
            Seq::empty(),
        ) + usual_places(optional(*local_app_data), seq!["Programs"@]) + usual_places(
            optional(*app_data),
            Seq::empty(),
        ),
{
    proof {
        reveal_strlit("Programs");
    }
    let here = String::new();
    let mut paths: Vec<Vec<String>> = Vec::new();
    assert(paths_view(paths@) =~= Seq::empty());
    push_places(&mut paths, program_files, &here);
    push_places(&mut paths, program_files_x86, &here);
    push_places(&mut paths, local_app_data, "Programs");
    push_places(&mut paths, app_data, &here);
    assert(paths_view(paths@) =~= usual_places(optional(*program_files), Seq::empty())
        + usual_places(optional(*program_files_x86), Seq::empty()) + usual_places(
        optional(*local_app_data),
        seq!["Programs"@],
    ) + usual_places(optional(*app_data), Seq::empty()));
    paths
}

/// The folder of an executable: its path, and its parts without those that
/// are no names.
#[derive(Debug)]
pub struct Folder {
    pub path: String,
    pub names: Vec<String>,
}

/// The places of a file of BitComet: beside the executable, where the system
/// redirects it to, and among the data of applications.
pub open spec fn data_places(
    folder: Option<Folder>,
    local_app_data: Option<Seq<char>>,
    app_data: Option<Seq<char>>,
    file_name: Seq<char>,
) -> Seq<Seq<Seq<char>>> {
    let beside = match folder {
        Some(folder) => seq![seq![folder.path@, file_name]],
        None => Seq::empty(),
    };
    let redirected = match (folder, local_app_data) {
        (Some(folder), Some(root)) => seq![
            seq![root, "VirtualStore"@] + texts(folder.names@) + seq![file_name],
        ],
        _ => Seq::empty(),
    };
    let shared = match app_data {
        Some(root) => seq![seq![root, "BitComet"@, file_name]],
        None => Seq::empty(),
    };
    beside + redirected + shared
}

/// The places in which a file of BitComet is looked for.
pub fn data_file_candidates(
    folder: &Option<Folder>,
    local_app_data: &Option<String>,
    app_data: &Option<String>,
    file_name: &str,
) -> (r: Vec<Vec<String>>)
    ensures
        paths_view(r@) == data_places(
            *folder,
            optional(*local_app_data),
            optional(*app_data),
            file_name@,
        ),
{
    let mut paths: Vec<Vec<String>> = Vec::new();
    assert(paths_view(paths@) =~= Seq::empty());
    if let Some(folder) = folder {
        push_pair(&mut paths, &folder.path, file_name);
        if let Some(root) = local_app_data {
            let mut parts = vec![root.clone(), "VirtualStore".to_string()];
            let ghost first = parts@;
            let mut i: usize = 0;
            while i < folder.names.len()
                invariant
                    i <= folder.names@.len(),
                    parts@ == first + folder.names@.take(i as int),
                decreases folder.names@.len() - i,
            {
                parts.push(folder.names[i].clone());
                assert(folder.names@.take(i + 1) =~= folder.names@.take(i as int).push(
                    folder.names@[i as int],
                ));
                i += 1;
            }
            parts.push(file_name.to_string());
            assert(texts(parts@) =~= seq![root@, "VirtualStore"@] + texts(folder.names@) + seq![
                file_name@,
            ]);
            push_path(&mut paths, parts);
        }
    }
    let ghost before = paths_view(paths@);
    if let Some(root) = app_data {
        let parts = vec![root.clone(), "BitComet".to_string(), file_name.to_string()];
        assert(texts(parts@) =~= seq![root@, "BitComet"@, file_name@]);
        push_path(&mut paths, parts);
    }
    assert(paths_view(paths@) =~= data_places(
        *folder,
        optional(*local_app_data),
        optional(*app_data),
        file_name@,
    ));
    paths
}

/// The places in which the list of tasks is looked for.
pub fn downloads_xml_candidates(
    folder: &Option<Folder>,
    local_app_data: &Option<String>,
    app_data: &Option<String>,
) -> (r: Vec<Vec<String>>)
    ensures
        paths_view(r@) == data_places(
            *folder,
            optional(*local_app_data),
            optional(*app_data),
            "Downloads.xml"@,
        ),
{
    data_file_candidates(folder, local_app_data, app_data, "Downloads.xml")
}

/// The places in which the settings are looked for.
pub fn bitcomet_xml_candidates(
    folder: &Option<Folder>,
    local_app_data: &Option<String>,
    app_data: &Option<String>,
) -> (r: Vec<Vec<String>>)
    ensures
        paths_view(r@) == data_places(
            *folder,
            optional(*local_app_data),
            optional(*app_data),
            "BitComet.xml"@,
        ),
{
    data_file_candidates(folder, local_app_data, app_data, "BitComet.xml")
}

/// All candidates for the executable: the one that is configured before those
/// of the registry, and the usual places last.
pub fn detection_candidates(
    saved_path: &str,
    registry: Vec<Vec<String>>,
    common: Vec<Vec<String>>,
) -> (r: Vec<Vec<String>>)
    ensures
        paths_view(r@) == if saved_path@.len() > 0 {
            seq![seq![saved_path@]]
        } else {
            Seq::empty()
        } + paths_view(registry@) + paths_view(common@),
{
    let mut paths: Vec<Vec<String>> = Vec::new();
    assert(paths_view(paths@) =~= Seq::empty());
    if !saved_path.is_empty() {
        let parts = vec![saved_path.to_string()];
        assert(texts(parts@) =~= seq![saved_path@]);
        push_path(&mut paths, parts);
    }
    let ghost first = paths_view(paths@);
    assert(first =~= if saved_path@.len() > 0 {
        seq![seq![saved_path@]]
    } else {
        Seq::empty()
    });
    let mut registry = registry;
    let mut common = common;
    let ghost second = paths_view(registry@);
    let ghost third = paths_view(common@);
    paths.append(&mut registry);
    assert(paths_view(paths@) =~= first + second);
    paths.append(&mut common);
    assert(paths_view(paths@) =~= first + second + third);
    paths
}

/// What the file system says of a candidate: its path, whether it is a file,
/// and when it was last written, in nanoseconds since 1970.
#[derive(Debug)]
pub struct FoundFile {
    pub path: String,
    pub is_file: bool,
    pub modified: Option<i128>,
}

/// The places of the candidates, from one on, that are files.
pub open spec fn file_places(candidates: Seq<FoundFile>, from: int) -> Seq<int>
    decreases candidates.len() - from,
{
    if from < 0 || from >= candidates.len() {
        Seq::empty()
    } else if candidates[from].is_file {
        seq![from] + file_places(candidates, from + 1)
    } else {
        file_places(candidates, from + 1)
    }
}

/// When the files among candidates were last written.
pub open spec fn file_times(candidates: Seq<FoundFile>) -> Seq<Option<i128>> {
    let places = file_places(candidates, 0);
    Seq::new(places.len(), |i: int| candidates[places[i]].modified)
}

/// The paths of the files among candidates.
pub open spec fn file_paths(candidates: Seq<FoundFile>) -> Seq<Seq<char>> {
    let places = file_places(candidates, 0);
    Seq::new(places.len(), |i: int| candidates[places[i]].path@)
}

/// Whether paths are those of the files among candidates, in the order in
/// which they were written, the latest first.
pub open spec fn are_newest_first(candidates: Seq<FoundFile>, paths: Seq<Seq<char>>) -> bool {
    exists|order: Seq<usize>| #[trigger]
        is_rearrangement(order, file_times(candidates).len() as int) && goes_down(
            file_times(candidates),
            order,
        ) && paths == rearranged(file_paths(candidates), order)
}

/// The paths of the files among candidates, the latest first.
pub fn newest_first(candidates: &Vec<FoundFile>) -> (r: Vec<String>)
    ensures
        are_newest_first(candidates@, texts(r@)),
{
    let mut times: Vec<Option<i128>> = Vec::new();
    let mut paths: Vec<String> = Vec::new();
    let ghost all = file_places(candidates@, 0);
    let ghost mut places: Seq<int> = Seq::empty();
    assert(places + all =~= all);
    let mut i: usize = 0;
    while i < candidates.len()
        invariant
            i <= candidates@.len(),
            all == file_places(candidates@, 0),
            places + file_places(candidates@, i as int) == all,
            times@.len() == places.len(),
            paths@.len() == places.len(),
            forall|j: int|
                0 <= j < places.len() ==> times@[j] == candidates@[#[trigger] places[j]].modified
                    && paths@[j]@ == candidates@[places[j]].path@,
        decreases candidates@.len() - i,
    {
        if candidates[i].is_file {
            times.push(candidates[i].modified);
            paths.push(candidates[i].path.clone());
            proof {
                let before = places;
                places = places.push(i as int);
                assert(before + (seq![i as int] + file_places(candidates@, i + 1)) =~= places
                    + file_places(candidates@, i + 1));
            }
        }
        i += 1;
    }
    assert(places =~= all);
    assert(times@ =~= file_times(candidates@));
    assert(texts(paths@) =~= file_paths(candidates@));
    let order = descending_order(&times);
    let mut sorted: Vec<String> = Vec::new();
    let mut i: usize = 0;
    while i < order.len()
        invariant
            i <= order@.len(),
            is_rearrangement(order@, paths@.len() as int),
            sorted@.len() == i,
            forall|j: int| 0 <= j < i ==> (#[trigger] sorted@[j])@ == paths@[order@[j] as int]@,
        decreases order@.len() - i,
    {
        sorted.push(paths[order[i]].clone());
        i += 1;
    }
    assert(texts(sorted@) =~= rearranged(texts(paths@), order@));
    assert(is_rearrangement(order@, file_times(candidates@).len() as int));
    sorted
}

} // verus!
