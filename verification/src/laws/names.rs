//! Names of files, lines of the log, and what is started, kept and sealed.

use vstd::prelude::*;
use vstd::string::*;
use vstd::utf8::encode_utf8;

use crate::bitcomet::login::{sealed, uuid_bytes};
use crate::outside::{
    base64_text, derived_key_of, encrypted_of, hex_text, hmac_of, is_control_code, is_space,
    lossy_text_of, sha256_of,
};
use crate::service::logs::{behind_first_line, last_lines, line_of};
use crate::startup::{change, command_fault, run_key};
use crate::store::{load_goes_on, LoadView};
use crate::text::{lemma_trim_fixed, lines_of, trimmed};
use crate::torrent::{find_byte, lemma_find_byte};
use crate::util::{collapsed, filename_of, item_id_of};

verus! {

/// Whether a character may stand in the name of a file: no control character,
/// and none that has a meaning in paths.
pub open spec fn may_stand(c: char) -> bool {
    !is_control_code(c) && c != '<' && c != '>' && c != ':' && c != '"' && c != '/' && c != '\\'
        && c != '|' && c != '?' && c != '*'
}

/// A title is made into the name of a file character by character: what may not
/// stand in one gives way to an underscore, white space becomes one blank, and
/// the rest stays.
pub proof fn law_filenames_keep_what_may_stand(title: Seq<char>, c: char)
    ensures
        !may_stand(c) ==> collapsed(title.push(c)) == collapsed(title).push('_'),
        may_stand(c) && !is_space(c) ==> collapsed(title.push(c)) == collapsed(title).push(c),
        may_stand(c) && is_space(c) && (title.len() == 0 || !may_stand(title.last()) || !is_space(
            title.last(),
        )) ==> collapsed(title.push(c)) == collapsed(title).push(' '),
        may_stand(c) && is_space(c) && title.len() > 0 && may_stand(title.last()) && is_space(
            title.last(),
        ) ==> collapsed(title.push(c)) == collapsed(title),
        collapsed(Seq::empty()).len() == 0,
{
    let longer = title.push(c);
    assert(longer.drop_last() =~= title);
    assert(!is_space('_'));
    if title.len() > 0 {
        assert(longer[longer.len() - 2] == title.last());
    }
}

/// The name of a file is made of what is left of the title without the blanks
/// around it, of at most its first 150 characters; where nothing is left, it is
/// that of any torrent.
pub proof fn law_filenames_are_cut(title: Seq<char>)
    ensures
        ({
            let kept = trimmed(collapsed(title));
            &&& kept.len() == 0 ==> filename_of(title) == "torrent"@
            &&& 0 < kept.len() <= 150 ==> filename_of(title) == kept
            &&& kept.len() > 150 ==> filename_of(title) == kept.take(150)
        }),
{
    reveal_strlit("torrent");
    assert("torrent"@.len() == 7);
}

/// A title that is a name of a file already stays as it is.
pub proof fn law_plain_titles_stay(title: Seq<char>)
    requires
        0 < title.len() <= 150,
        forall|i: int| 0 <= i < title.len() ==> may_stand(#[trigger] title[i]),
        forall|i: int| 0 <= i < title.len() && is_space(#[trigger] title[i]) ==> title[i] == ' ',
        forall|i: int|
            0 < i < title.len() && is_space(title[i - 1]) ==> !is_space(#[trigger] title[i]),
        !is_space(title[0]),
        !is_space(title.last()),
    ensures
        filename_of(title) == title,
{
    lemma_plain(title, title.len() as int);
    assert(title.take(title.len() as int) =~= title);
    lemma_trim_fixed(title);
    law_filenames_are_cut(title);
}

proof fn lemma_plain(title: Seq<char>, end: int)
    requires
        0 <= end <= title.len(),
        forall|i: int| 0 <= i < title.len() ==> may_stand(#[trigger] title[i]),
        forall|i: int| 0 <= i < title.len() && is_space(#[trigger] title[i]) ==> title[i] == ' ',
        forall|i: int|
            0 < i < title.len() && is_space(title[i - 1]) ==> !is_space(#[trigger] title[i]),
    ensures
        collapsed(title.take(end)) == title.take(end),
    decreases end,
{
    if end == 0 {
        assert(title.take(0) =~= Seq::empty());
    } else {
        lemma_plain(title, end - 1);
        assert(title.take(end) =~= title.take(end - 1).push(title[end - 1]));
        law_filenames_keep_what_may_stand(title.take(end - 1), title[end - 1]);
        if end > 1 {
            assert(title.take(end - 1).last() == title[end - 2]);
        }
    }
}

/// The identifier of an item is the beginning of the digest of its key, in
/// hexadecimal.
pub proof fn law_identifiers_are_digests(key: Seq<char>, i: int)
    requires
        0 <= i < 16,
        hex_text(sha256_of(encode_utf8(key))).len() >= 16,
    ensures
        item_id_of(key).len() == 16,
        item_id_of(key)[i] == hex_text(sha256_of(encode_utf8(key)))[i],
{
}

/// A line of the log has its time, its level and the first 4000 characters of
/// its message, with blanks between them and a line feed behind.
pub proof fn law_log_lines_have_their_parts(now: Seq<char>, level: Seq<char>, message: Seq<char>)
    ensures
        message.len() <= 4000 ==> line_of(now, level, message) == now + seq![' '] + level + seq![
            ' ',
        ] + message + seq!['\n'],
        message.len() > 4000 ==> line_of(now, level, message) == line_of(
            now,
            level,
            message.take(4000),
        ),
{
    reveal_strlit(" ");
    reveal_strlit("\n");
    assert(" "@ =~= seq![' ']);
    assert("\n"@ =~= seq!['\n']);
}

/// Shown are the last lines of the log: all of them where there are no more
/// than are asked for, and else as many as are asked for, from the end.
pub proof fn law_last_lines_are_shown(bytes: Seq<u8>, limit: usize, i: int)
    ensures
        ({
            let all = lines_of(lossy_text_of(bytes));
            let shown = last_lines(bytes, false, limit);
            &&& all.len() <= limit ==> shown == all
            &&& all.len() > limit ==> shown.len() == limit
            &&& 0 <= i < shown.len() ==> shown[i] == all[all.len() - shown.len() + i]
        }),
{
}

/// Where the log was not read from its beginning, all up to the first line feed
/// is left out, as it may be the rest of a line.
pub proof fn law_broken_line_is_left_out(before: Seq<u8>, bytes: Seq<u8>, limit: usize)
    requires
        forall|i: int| 0 <= i < before.len() ==> #[trigger] before[i] != 0x0a,
    ensures
        last_lines(before + seq![0x0au8] + bytes, true, limit) == last_lines(bytes, false, limit),
        last_lines(before, true, limit) == last_lines(before, false, limit),
{
    let all = before + seq![0x0au8] + bytes;
    lemma_find_byte(all, 0x0a, 0);
    assert(all[before.len() as int] == 0x0a);
    let end = find_byte(all, 0x0a, 0);
    if end < before.len() {
        assert(all[end] == before[end]);
    }
    assert(behind_first_line(all) == before.len() + 1);
    assert(all.skip(before.len() as int + 1) =~= bytes);
    lemma_find_byte(before, 0x0a, 0);
    assert(before.skip(0) =~= before);
}

/// To start with the system, the executable is entered among what the system
/// runs, in quotation marks and to stay hidden, which has to succeed; not to, it
/// is taken out from there. Either way the entry of old is taken out, which may
/// fail.
pub proof fn law_startup_enters_the_executable(executable: Seq<char>)
    ensures
        ({
            let on = change(executable, true);
            let off = change(executable, false);
            &&& on.len() == 2 && off.len() == 2
            &&& on[0].1 && !on[1].1 && !off[0].1 && !off[1].1
            &&& on[1] == off[1]
            &&& on[0].0.program == "reg.exe"@ && off[0].0.program == "reg.exe"@
            &&& on[1].0.program == "schtasks.exe"@
            &&& on[0].0.arguments.contains("add"@) && off[0].0.arguments.contains("delete"@)
            &&& on[1].0.arguments.contains("/delete"@)
            &&& on[0].0.arguments.contains(run_key()) && off[0].0.arguments.contains(run_key())
            &&& on[0].0.arguments.contains(seq!['"'] + executable + seq!['"'] + " --hidden"@)
        }),
{
    let on = change(executable, true);
    let off = change(executable, false);
    reveal_strlit("\"");
    reveal_strlit("\" --hidden");
    reveal_strlit(" --hidden");
    assert("\""@ =~= seq!['"']);
    assert("\" --hidden"@ =~= seq!['"'] + " --hidden"@);
    let value = seq!['"'] + executable + seq!['"'] + " --hidden"@;
    assert("\""@ + executable + "\" --hidden"@ =~= value);
    assert(on[0].0.arguments[0] == "add"@);
    assert(on[0].0.arguments[1] == run_key());
    assert(on[0].0.arguments[7] == value);
    assert(off[0].0.arguments[0] == "delete"@);
    assert(off[0].0.arguments[1] == run_key());
    assert(on[1].0.arguments[0] == "/delete"@);
}

/// A command has failed if it did not run, or did not end well.
pub proof fn law_commands_fail_with_their_status(
    program: Seq<char>,
    status: String,
    fault: String,
)
    ensures
        command_fault(program, Ok((true, status))) is None,
        command_fault(program, Ok((false, status))) == Some(program + " exited with "@ + status@),
        command_fault(program, Err(fault)) == Some(fault@),
{
}

/// Reading a state goes on from one step to the next as long as nothing fails;
/// only the state itself may fail to be read, and then the backup is read.
pub proof fn law_reading_goes_on_step_by_step(
    error: Seq<char>,
    other: Seq<char>,
    state_exists: bool,
)
    ensures
        load_goes_on(LoadView::ReadState, None, state_exists) == LoadView::UseState,
        load_goes_on(LoadView::ReadState, Some(error), state_exists) == LoadView::ReadBackup(error),
        load_goes_on(LoadView::ReadBackup(error), None, true) == LoadView::RemoveState,
        load_goes_on(LoadView::ReadBackup(error), None, false) == LoadView::SaveBackup,
        load_goes_on(LoadView::ReadBackup(error), Some(other), state_exists) == LoadView::Fail(
            "状态文件和备份都无法读取："@ + error + "；备份错误："@ + other,
        ),
        load_goes_on(LoadView::RemoveState, None, state_exists) == LoadView::SaveBackup,
        load_goes_on(LoadView::RemoveState, Some(other), state_exists) == LoadView::Fail(other),
        load_goes_on(LoadView::SaveBackup, None, state_exists) == LoadView::UseBackup,
        load_goes_on(LoadView::SaveBackup, Some(other), state_exists) == LoadView::Fail(other),
{
}

/// The identity of this device has the bytes of a digest, but for the marks of
/// version and variant.
pub proof fn law_device_identity_is_a_digest(digest: Seq<u8>, i: int)
    requires
        digest.len() >= 16,
        0 <= i < 16,
    ensures
        uuid_bytes(digest).len() == 16,
        i != 6 && i != 8 ==> uuid_bytes(digest)[i] == digest[i],
        i == 6 ==> uuid_bytes(digest)[i] / 16 == 4 && uuid_bytes(digest)[i] % 16 == digest[i] % 16,
        i == 8 ==> uuid_bytes(digest)[i] / 64 == 2 && uuid_bytes(digest)[i] % 64 == digest[i] % 64,
{
}

/// What is sealed is, in base64, two marks, both salts, the initial block, the
/// encrypted text and the code that guards all before it, the keys being those
/// that are derived from the password with the salts.
pub proof fn law_sealed_text_has_its_parts(
    plaintext: Seq<u8>,
    password: Seq<u8>,
    salt_key: Seq<u8>,
    salt_hmac: Seq<u8>,
    iv: Seq<u8>,
    guarded: Seq<u8>,
)
    requires
        guarded == seq![3u8, 1u8] + salt_key + salt_hmac + iv + encrypted_of(
            derived_key_of(password, salt_key, 10_000),
            iv,
            plaintext,
        ),
    ensures
        sealed(plaintext, password, salt_key, salt_hmac, iv) == base64_text(
            guarded + hmac_of(derived_key_of(password, salt_hmac, 10_000), guarded),
        ),
{
}

} // verus!
