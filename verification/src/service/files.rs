//! The files of a download: whether they are there, which folder they are in,
//! and which of them are deleted.

use vstd::prelude::*;
use vstd::string::*;

use crate::outside::same_text;
use crate::text::{
    clone_optional, joined, keep_text, kept_text, lower, optional, same_ignoring_case, texts,
};
use crate::util::PathFacts;

verus! {

/// Chooses the folder for data: beside the application where it is marked as
/// portable, else that of the user. The path is given as its parts.
pub fn resolve_data_dir(app_dir: &str, local_data_dir: &str, marked_portable: bool) -> (r: Vec<
    String,
>)
    ensures
        texts(r@) == seq![
            if marked_portable {
                app_dir@
            } else {
                local_data_dir@
            },
            "data"@,
        ],
{
    let root = if marked_portable {
        app_dir.to_string()
    } else {
        local_data_dir.to_string()
    };
    let ghost chosen = root@;
    let parts = vec![root, "data".to_string()];
    assert(texts(parts@) =~= seq![chosen, "data"@]);
    parts
}

/// Decides whether the data of an earlier version are taken over.
pub fn migrate_legacy_data(same_folder: bool, source_is_dir: bool) -> (r: bool)
    ensures
        r == (!same_folder && source_is_dir),
{
    !same_folder && source_is_dir
}

/// What is done with an entry of a folder that is copied.
#[derive(Clone, Copy, Debug, PartialEq, Eq, Structural)]
pub enum CopyStep {
    Descend,
    Copy,
    Skip,
}

/// Decides what is done with an entry of a folder that is copied: nothing
/// that is there already is overwritten.
pub fn copy_entry(is_dir: bool, destination_exists: bool) -> (r: CopyStep)
    ensures
        r == if is_dir {
            CopyStep::Descend
        } else if destination_exists {
            CopyStep::Skip
        } else {
            CopyStep::Copy
        },
{
    if is_dir {
        CopyStep::Descend
    } else if destination_exists {
        CopyStep::Skip
    } else {
        CopyStep::Copy
    }
}

/// What is said of a folder for data that cannot be written to.
pub fn unwritable_message(data_dir: &str, error: &str) -> (r: String)
    ensures
        r@ == "数据目录不可写（"@ + data_dir@ + "）："@ + error@,
{
    let mut text = joined("数据目录不可写（", data_dir);
    text.append("）：");
    text.append(error);
    text
}

/// Decides whether the torrent file that was kept for an item is removed: only
/// a file in the folder for such files is. Both paths are given as their
/// parts.
pub fn removes_cached_torrent(path: &Vec<String>, cache: &Vec<String>, is_file: bool) -> (r: bool)
    ensures
        r == (is_file && texts(cache@).is_prefix_of(texts(path@))),
{
    if !is_file || cache.len() > path.len() {
        return false;
    }
    let mut i: usize = 0;
    while i < cache.len()
        invariant
            i <= cache@.len() <= path@.len(),
            forall|j: int| 0 <= j < i ==> #[trigger] texts(cache@)[j] == texts(path@)[j],
        decreases cache@.len() - i,
    {
        if !same_text(&cache[i], &path[i]) {
            assert(texts(path@).subrange(0, cache@.len() as int)[i as int] != texts(
                cache@,
            )[i as int]);
            return false;
        }
        i += 1;
    }
    assert(texts(cache@) =~= texts(path@).subrange(0, cache@.len() as int));
    true
}

/// What is said of a torrent file that was kept and cannot be removed.
pub fn cached_torrent_message(error: &str) -> (r: String)
    ensures
        r@ == "种子缓存删除失败："@ + error@,
{
    joined("种子缓存删除失败：", error)
}

/// What the file system says of a download: of the place where it was saved,
/// and of its name in that place. Of the name, it also says for each part
/// whether that is a plain name.
#[derive(Debug)]
pub struct DownloadFacts {
    pub location: PathFacts,
    pub inside: PathFacts,
    pub name_parts: Vec<bool>,
}

/// Whether the place where a download was saved has its name.
pub open spec fn is_target(location: PathFacts, name: Seq<char>) -> bool {
    location.file_name matches Some(file_name) && lower(file_name@) == lower(name)
}

/// Whether a download is there, as far as that can be told.
pub open spec fn presence_of(
    location: Option<Seq<char>>,
    name: Option<Seq<char>>,
    facts: DownloadFacts,
) -> Option<bool> {
    if kept_text(location) is None {
        None
    } else if facts.location.is_file {
        Some(true)
    } else {
        match kept_text(name) {
            None => Some(facts.location.exists),
            Some(name) => if is_target(facts.location, name) {
                Some(facts.location.exists)
            } else {
                Some(facts.inside.exists)
            },
        }
    }
}

fn location_is_target(location: &PathFacts, name: &str) -> (r: bool)
    ensures
        r == is_target(*location, name@),
{
    match &location.file_name {
        Some(file_name) => same_ignoring_case(file_name, name),
        None => false,
    }
}

/// Tells whether a download is there, as far as that can be told.
pub fn download_path_exists(
    location: &Option<String>,
    save_name: &Option<String>,
    facts: &DownloadFacts,
) -> (r: Option<bool>)
    ensures
        r == presence_of(optional(*location), optional(*save_name), *facts),
{
    if keep_text(location).is_none() {
        return None;
    }
    if facts.location.is_file {
        return Some(true);
    }
    match keep_text(save_name) {
        None => Some(facts.location.exists),
        Some(name) => if location_is_target(&facts.location, &name) {
            Some(facts.location.exists)
        } else {
            Some(facts.inside.exists)
        },
    }
}

/// The folder that a download is in, else the one that is configured.
pub open spec fn folder_of_item(
    save_location: Option<Seq<char>>,
    save_name: Option<Seq<char>>,
    location: PathFacts,
    configured: PathFacts,
) -> Option<Seq<char>> {
    let otherwise = if configured.is_dir {
        Some(configured.path@)
    } else {
        None
    };
    if kept_text(save_location) is None {
        otherwise
    } else if location.is_dir {
        Some(location.path@)
    } else if location.is_file {
        optional(location.parent)
    } else if save_name matches Some(name) && is_target(location, name) && location.parent_is_dir
        && location.parent is Some {
        optional(location.parent)
    } else {
        otherwise
    }
}

/// Finds the folder that a download is in, else the one that is configured.
pub fn resolve_item_directory(
    save_location: &Option<String>,
    save_name: &Option<String>,
    location: &PathFacts,
    configured: &PathFacts,
) -> (r: Option<String>)
    ensures
        optional(r) == folder_of_item(
            optional(*save_location),
            optional(*save_name),
            *location,
            *configured,
        ),
{
    if keep_text(save_location).is_some() {
        if location.is_dir {
            return Some(location.path.clone());
        }
        if location.is_file {
            return clone_optional(&location.parent);
        }
        if let Some(name) = save_name {
            if location_is_target(location, name) && location.parent_is_dir
                && location.parent.is_some() {
                return clone_optional(&location.parent);
            }
        }
    }
    if configured.is_dir {
        Some(configured.path.clone())
    } else {
        None
    }
}

/// What is deleted of a download.
#[derive(Debug, PartialEq, Eq)]
pub enum Deletion {
    Nothing,
    Folder(String),
    File(String),
}

/// The contents of a `Deletion`.
pub enum DeletionView {
    Nothing,
    Folder(Seq<char>),
    File(Seq<char>),
}

impl View for Deletion {
    type V = DeletionView;

    open spec fn view(&self) -> DeletionView {
        match self {
            Deletion::Nothing => DeletionView::Nothing,
            Deletion::Folder(path) => DeletionView::Folder(path@),
            Deletion::File(path) => DeletionView::File(path@),
        }
    }
}

/// Whether a name is a single plain one.
pub open spec fn is_plain(name_parts: Seq<bool>) -> bool {
    name_parts.len() == 1 && name_parts[0]
}

/// What is deleted of a download, or why nothing may be: a name that leads
/// elsewhere is refused.
pub open spec fn deletion_of(
    save_location: Option<Seq<char>>,
    save_name: Option<Seq<char>>,
    facts: DownloadFacts,
) -> Result<DeletionView, Seq<char>> {
    if kept_text(save_location) is None || kept_text(save_name) is None {
        Ok(DeletionView::Nothing)
    } else if !is_plain(facts.name_parts@) {
        Err("本地下载文件删除失败：下载名称不是安全的单层路径"@)
    } else {
        let target = if is_target(facts.location, kept_text(save_name)->Some_0) {
            facts.location
        } else {
            facts.inside
        };
        Ok(
            if !target.exists {
                DeletionView::Nothing
            } else if target.is_dir {
                DeletionView::Folder(target.path@)
            } else {
                DeletionView::File(target.path@)
            },
        )
    }
}

/// Decides what is deleted of a download.
pub fn delete_download_target(
    save_location: &Option<String>,
    save_name: &Option<String>,
    facts: &DownloadFacts,
) -> (r: Result<Deletion, String>)
    ensures
        match r {
            Ok(deletion) => deletion_of(optional(*save_location), optional(*save_name), *facts)
                == Ok::<_, Seq<char>>(deletion@),
            Err(message) => deletion_of(optional(*save_location), optional(*save_name), *facts)
                == Err::<DeletionView, _>(message@),
        },
{
    if keep_text(save_location).is_none() {
        return Ok(Deletion::Nothing);
    }
    let name = match keep_text(save_name) {
        Some(name) => name,
        None => {
            return Ok(Deletion::Nothing);
        },
    };
    if facts.name_parts.len() != 1 || !facts.name_parts[0] {
        return Err("本地下载文件删除失败：下载名称不是安全的单层路径".to_string());
    }
    let target = if location_is_target(&facts.location, &name) {
        &facts.location
    } else {
        &facts.inside
    };
    if !target.exists {
        Ok(Deletion::Nothing)
    } else if target.is_dir {
        Ok(Deletion::Folder(target.path.clone()))
    } else {
        Ok(Deletion::File(target.path.clone()))
    }
}

/// What is said of a download that could not be deleted.
pub fn deletion_message(path: &str, error: &str) -> (r: String)
    ensures
        r@ == "本地下载文件删除失败（"@ + path@ + "）："@ + error@,
{
    let mut text = joined("本地下载文件删除失败（", path);
    text.append("）：");
    text.append(error);
    text
}

/// Nothing but the place of a download, or its name in that place, is ever
/// deleted, and nothing at all by a name that leads elsewhere.
pub proof fn law_deletion_stays_in_place(
    save_location: Option<Seq<char>>,
    save_name: Option<Seq<char>>,
    facts: DownloadFacts,
)
    ensures
        deletion_of(save_location, save_name, facts) matches Ok(deletion) ==> match deletion {
            DeletionView::Nothing => true,
            DeletionView::Folder(path) => is_plain(facts.name_parts@) && (path
                == facts.location.path@ || path == facts.inside.path@),
            DeletionView::File(path) => is_plain(facts.name_parts@) && (path
                == facts.location.path@ || path == facts.inside.path@),
        },
{
}

} // verus!
