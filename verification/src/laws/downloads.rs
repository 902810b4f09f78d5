//! Where the files of a download are, and which of them are deleted.

use vstd::prelude::*;
use vstd::string::*;

use crate::laws::words::{law_lower_case_tells_the_same_texts, same_but_case};
use crate::service::files::{
    deletion_of, folder_of_item, is_target, presence_of, DeletionView, DownloadFacts,
};
use crate::text::{optional, trimmed};
use crate::util::{folder_of, PathFacts};

verus! {

/// Whether a text is there and more than white space.
pub open spec fn is_given(text: Option<Seq<char>>) -> bool {
    text matches Some(text) && trimmed(text).len() > 0
}

/// Whether a path leads to something with a name, in any case of its letters.
pub open spec fn has_name(facts: PathFacts, name: Seq<char>) -> bool {
    facts.file_name matches Some(file_name) && same_but_case(file_name@, name)
}

proof fn lemma_has_name(facts: PathFacts, name: Seq<char>)
    ensures
        is_target(facts, name) <==> has_name(facts, name),
{
    if let Some(file_name) = facts.file_name {
        law_lower_case_tells_the_same_texts(file_name@, name);
    }
}

/// Whether a download is there is told by the place where it was saved: by
/// itself where it is a file, has the name of the download or no name is
/// known, and else by what stands under the name in it. Without a place it is
/// not known.
pub proof fn law_presence_is_told_by_the_place(
    location: Option<Seq<char>>,
    name: Option<Seq<char>>,
    facts: DownloadFacts,
)
    ensures
        !is_given(location) ==> presence_of(location, name, facts) is None,
        is_given(location) && facts.location.is_file ==> presence_of(location, name, facts)
            == Some(true),
        is_given(location) && !facts.location.is_file && !is_given(name) ==> presence_of(
            location,
            name,
            facts,
        ) == Some(facts.location.exists),
        is_given(location) && !facts.location.is_file && is_given(name) ==> {
            &&& has_name(facts.location, trimmed(name->Some_0)) ==> presence_of(
                location,
                name,
                facts,
            ) == Some(facts.location.exists)
            &&& !has_name(facts.location, trimmed(name->Some_0)) ==> presence_of(
                location,
                name,
                facts,
            ) == Some(facts.inside.exists)
        },
{
    if let Some(name) = name {
        lemma_has_name(facts.location, trimmed(name));
    }
}

/// Deleted is the place where a download was saved, where that has its name,
/// and else what stands under its name there, if it is there: a folder as one,
/// a file as one. Without a place or a name nothing is, and a name that is no
/// single plain one is refused.
pub proof fn law_deletion_is_of_the_named_target(
    location: Option<Seq<char>>,
    name: Option<Seq<char>>,
    facts: DownloadFacts,
)
    ensures
        !is_given(location) || !is_given(name) ==> deletion_of(location, name, facts) == Ok::<
            _,
            Seq<char>,
        >(DeletionView::Nothing),
        is_given(location) && is_given(name) && !(facts.name_parts@.len() == 1
            && facts.name_parts@[0]) ==> deletion_of(location, name, facts) == Err::<
            DeletionView,
            _,
        >("本地下载文件删除失败：下载名称不是安全的单层路径"@),
        is_given(location) && is_given(name) && facts.name_parts@.len() == 1 && facts.name_parts@[0]
            ==> {
            let target = if has_name(facts.location, trimmed(name->Some_0)) {
                facts.location
            } else {
                facts.inside
            };
            &&& !target.exists ==> deletion_of(location, name, facts) == Ok::<_, Seq<char>>(
                DeletionView::Nothing,
            )
            &&& target.exists && target.is_dir ==> deletion_of(location, name, facts) == Ok::<
                _,
                Seq<char>,
            >(DeletionView::Folder(target.path@))
            &&& target.exists && !target.is_dir ==> deletion_of(location, name, facts) == Ok::<
                _,
                Seq<char>,
            >(DeletionView::File(target.path@))
        },
{
    if let Some(name) = name {
        lemma_has_name(facts.location, trimmed(name));
    }
}

/// The folder of a download is the place where it was saved, if that is a
/// folder; the one around it, if it is a file, or was one by its name; and else
/// the one that is configured, if that is there.
pub proof fn law_folder_is_found_around_the_download(
    place: Option<Seq<char>>,
    name: Option<Seq<char>>,
    location: PathFacts,
    configured: PathFacts,
)
    ensures
        ({
            let found = folder_of_item(place, name, location, configured);
            let named = name matches Some(name) && has_name(location, name);
            let lost = is_given(place) && !location.is_dir && !location.is_file && !(named
                && location.parent_is_dir && location.parent is Some);
            &&& is_given(place) && location.is_dir ==> found == Some(location.path@)
            &&& is_given(place) && !location.is_dir && location.is_file ==> found == optional(
                location.parent,
            )
            &&& is_given(place) && !location.is_dir && !location.is_file && named
                && location.parent_is_dir && location.parent is Some ==> found == optional(
                location.parent,
            )
            &&& (!is_given(place) || lost) && configured.is_dir ==> found == Some(configured.path@)
            &&& (!is_given(place) || lost) && !configured.is_dir ==> found is None
        }),
{
    if let Some(name) = name {
        lemma_has_name(location, name);
    }
}

/// A path leads to the folder that it is, or to the one around it where it is a
/// file or would be in a folder that is there; an empty one leads nowhere.
pub proof fn law_paths_lead_to_folders(facts: PathFacts)
    ensures
        facts.path@.len() == 0 ==> folder_of(facts) is None,
        facts.path@.len() > 0 && facts.is_dir ==> folder_of(facts) == Some(facts.path@),
        facts.path@.len() > 0 && !facts.is_dir && (facts.is_file || facts.parent_is_dir)
            ==> folder_of(facts) == optional(facts.parent),
        facts.path@.len() > 0 && !facts.is_dir && !facts.is_file && !facts.parent_is_dir
            ==> folder_of(facts) is None,
{
}

} // verus!
