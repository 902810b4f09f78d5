//! What a conversation with the web interface comes to.

use vstd::prelude::*;
use vstd::string::*;
use vstd::utf8::encode_utf8;

use crate::bitcomet::login::{credentials_of, sealed, Salts, LONGEST_PLAINTEXT};
use crate::bitcomet::session::{
    draws, entries_of, is_disabled, lets_in, next_entry, ports_text, request_of, told,
    ConversationView, FieldView, GoalView, OutcomeView, PhaseView,
};
use crate::bitcomet::tasks::ReportedView;
use crate::bitcomet::webui::{error_in, has_succeeded, webui_task};
use crate::json::{first_text, member_of, text_in, Json};
use crate::laws::values::{
    has_member, lacks_member, law_members_are_found_by_their_names, law_texts_are_read_from_members,
    member_says,
};
use crate::number::decimal_text;

verus! {

/// The address of a port on this machine.
pub open spec fn local_address(port: u16) -> Seq<char> {
    "http://127.0.0.1:"@ + decimal_text(port as nat)
}

/// The conversation, ended with words, and with the version as far as it is
/// known.
pub open spec fn ended_with(talk: ConversationView, words: Seq<char>) -> ConversationView {
    ConversationView {
        phase: PhaseView::Finished(OutcomeView::Failed(talk.version, words)),
        ..talk
    }
}

/// A port that does not answer gives way to the next one; where there is no
/// other, the conversation ends.
pub proof fn law_silent_port_gives_way(
    talk: ConversationView,
    cache: Map<Seq<char>, Seq<char>>,
    words: String,
    drawn: Result<Salts, String>,
)
    requires
        talk.phase is Verify,
        0 <= talk.at < talk.ports.len(),
    ensures
        ({
            let (after, kept) = told(talk, cache, Err(words), drawn);
            &&& kept == cache
            &&& talk.at + 1 < talk.ports.len() ==> after == (ConversationView {
                at: talk.at + 1,
                ..talk
            })
            &&& talk.at + 1 == talk.ports.len() && talk.goal is Control ==> after == ended_with(
                ConversationView { at: talk.at + 1, ..talk },
                "无法连接 BitComet WebUI"@,
            )
            &&& talk.at + 1 == talk.ports.len() && talk.goal is Tasks ==> after == ended_with(
                ConversationView { at: talk.at + 1, ..talk },
                "无法连接 BitComet WebUI；请在 BitComet 设置 > 远程访问中启用 Web UI（已检查端口 "@
                    + ports_text(talk.ports) + "）"@,
            )
        }),
{
}

/// Ports are listed one after the other, with a comma between any two.
pub proof fn law_ports_are_listed(ports: Seq<u16>, port: u16)
    ensures
        ports_text(seq![port]) == decimal_text(port as nat),
        ports.len() > 0 ==> ports_text(ports.push(port)) == ports_text(ports) + "、"@
            + decimal_text(port as nat),
{
    assert(ports.push(port).drop_last() =~= ports);
}

/// Random bytes are drawn where the conversation has to log in with sealed
/// credentials, and only there: elsewhere it goes on alike whatever they are.
pub proof fn law_random_bytes_are_drawn_to_log_in(
    talk: ConversationView,
    cache: Map<Seq<char>, Seq<char>>,
    reply: Result<Json, String>,
    salts: Salts,
    drawn: Result<Salts, String>,
)
    ensures
        draws(talk, cache, reply) <==> (told(
            talk,
            cache,
            reply,
            Ok(salts),
        ).0.phase matches PhaseView::Login { authentication: Some(_) }) && !(talk.phase is Login),
        !draws(talk, cache, reply) ==> told(talk, cache, reply, drawn) == told(
            talk,
            cache,
            reply,
            Ok(salts),
        ),
{
}

/// Behind a port that answers, whatever goes wrong ends the conversation with
/// its words.
pub proof fn law_failures_end_the_conversation(
    talk: ConversationView,
    cache: Map<Seq<char>, Seq<char>>,
    words: String,
    drawn: Result<Salts, String>,
)
    requires
        !(talk.phase is Verify),
        !(talk.phase is Finished),
    ensures
        told(talk, cache, Err(words), drawn) == (ended_with(talk, words@), cache),
{
}

/// How a conversation goes on to have itself let in: with the token that is
/// remembered for its address; else without credentials, if it may; else with
/// the sealed credentials, for which there has to be a user.
pub open spec fn lets_itself_in(
    talk: ConversationView,
    after: ConversationView,
    cache: Map<Seq<char>, Seq<char>>,
    drawn: Result<Salts, String>,
) -> bool {
    let address = local_address(talk.ports[talk.at]);
    let plaintext = encode_utf8(credentials_of(talk.username, talk.password));
    &&& cache.contains_key(address) ==> after == (ConversationView {
        phase: PhaseView::Ask { token: cache[address] },
        ..talk
    })
    &&& !cache.contains_key(address) && talk.bypass ==> after == (ConversationView {
        phase: PhaseView::Login { authentication: None },
        ..talk
    })
    &&& !cache.contains_key(address) && !talk.bypass && talk.username.len() == 0 ==> after
        == ended_with(
        talk,
        "BitComet WebUI 需要登录，但未在 BitComet.xml 中找到用户名；可开启“允许本机免登录”"@,
    )
    &&& !cache.contains_key(address) && !talk.bypass && talk.username.len() > 0 && plaintext.len()
        <= LONGEST_PLAINTEXT ==> match drawn {
        Ok(salts) => after == (ConversationView {
            phase: PhaseView::Login {
                authentication: Some(
                    sealed(
                        plaintext,
                        encode_utf8(talk.device_id),
                        salts.key@,
                        salts.hmac@,
                        salts.iv@,
                    ),
                ),
            },
            ..talk
        }),
        Err(fault) => after == ended_with(talk, fault@),
    }
}

proof fn lemma_lets_in(answer: Json)
    ensures
        lets_in(answer) <==> has_member(answer, "bypass_eligible"@, Json::Bool(true)),
        is_disabled(answer) <==> member_says(answer, "error_code"@, "APP_ACCESS_DISABLED"@),
{
    law_members_are_found_by_their_names(answer, "bypass_eligible"@, Json::Bool(true));
    law_texts_are_read_from_members(answer, "error_code"@, "APP_ACCESS_DISABLED"@);
}

/// Behind a port that answers, a conversation for the tasks takes note of the
/// version, and ends where the interface is switched off; else it lets itself
/// in, without credentials where the answer says that it may.
pub proof fn law_answering_port_is_used(
    talk: ConversationView,
    cache: Map<Seq<char>, Seq<char>>,
    answer: Json,
    version: Seq<char>,
    drawn: Result<Salts, String>,
)
    requires
        talk.phase is Verify,
        0 <= talk.at < talk.ports.len(),
    ensures
        ({
            let (after, kept) = told(talk, cache, Ok(answer), drawn);
            let bypass = has_member(answer, "bypass_eligible"@, Json::Bool(true));
            let disabled = member_says(answer, "error_code"@, "APP_ACCESS_DISABLED"@);
            &&& kept == cache
            &&& talk.goal is Control ==> lets_itself_in(
                ConversationView { bypass, ..talk },
                after,
                cache,
                drawn,
            )
            &&& talk.goal is Tasks && disabled ==> (
            after.phase matches PhaseView::Finished(OutcomeView::Failed(_, words)) && words
                == "BitComet WebUI 未开启；请在 BitComet 设置的远程访问中启用 WebUI（端口 "@
                + decimal_text(talk.ports[talk.at] as nat) + "）"@)
            &&& talk.goal is Tasks && !disabled && member_says(answer, "version"@, version)
                && version.len() > 0 ==> lets_itself_in(
                ConversationView { bypass, version: Some(version), ..talk },
                after,
                cache,
                drawn,
            )
            &&& talk.goal is Tasks && !disabled && lacks_member(answer, "version"@)
                ==> lets_itself_in(ConversationView { bypass, ..talk }, after, cache, drawn)
        }),
{
    lemma_lets_in(answer);
    let names = ["version"]@;
    law_texts_are_read_from_members(answer, "version"@, version);
    law_members_are_found_by_their_names(answer, "version"@, Json::Null);
    assert(names.len() == 1 && names[0]@ == "version"@);
    reveal_with_fuel(first_text, 2);
    assert(first_text(answer, names, 0) == text_in(
        member_of(answer, "version"@),
    ));
}

/// A login that succeeds gives an invitation, with which a token is asked for;
/// the token is remembered for the address and used from then on.
pub proof fn law_login_gives_a_token(
    talk: ConversationView,
    cache: Map<Seq<char>, Seq<char>>,
    answer: Json,
    text: Seq<char>,
    drawn: Result<Salts, String>,
)
    requires
        0 <= talk.at < talk.ports.len(),
    ensures
        talk.phase is Login && member_says(answer, "error_code"@, "OK"@) && member_says(
            answer,
            "invite_token"@,
            text,
        ) ==> told(talk, cache, Ok(answer), drawn) == (
            ConversationView { phase: PhaseView::Device { invite: text }, ..talk },
            cache,
        ),
        talk.phase is Login && !member_says(answer, "error_code"@, "OK"@) ==> told(
            talk,
            cache,
            Ok(answer),
            drawn,
        ) == (ended_with(talk, error_in(answer)), cache),
        talk.phase is Login && lacks_member(answer, "invite_token"@) ==> told(
            talk,
            cache,
            Ok(answer),
            drawn,
        ) == (ended_with(talk, error_in(answer)), cache),
        talk.phase is Device && member_says(answer, "device_token"@, text) ==> told(
            talk,
            cache,
            Ok(answer),
            drawn,
        ) == (
            ConversationView { phase: PhaseView::Ask { token: text }, ..talk },
            cache.insert(local_address(talk.ports[talk.at]), text),
        ),
        talk.phase is Device && lacks_member(answer, "device_token"@) ==> told(
            talk,
            cache,
            Ok(answer),
            drawn,
        ) == (ended_with(talk, error_in(answer)), cache),
{
    law_texts_are_read_from_members(answer, "error_code"@, "OK"@);
    law_texts_are_read_from_members(answer, "invite_token"@, text);
    law_texts_are_read_from_members(answer, "device_token"@, text);
    law_members_are_found_by_their_names(answer, "invite_token"@, Json::Null);
    law_members_are_found_by_their_names(answer, "device_token"@, Json::Null);
}

/// A token that is refused for the first time is forgotten, and the
/// conversation lets itself in anew.
pub proof fn law_refused_token_is_renewed(
    talk: ConversationView,
    cache: Map<Seq<char>, Seq<char>>,
    answer: Json,
    drawn: Result<Salts, String>,
)
    requires
        talk.phase is Ask,
        0 <= talk.at < talk.ports.len(),
        !talk.renewed,
        member_says(answer, "error_code"@, "INVALID_TOKEN"@),
    ensures
        ({
            let (after, kept) = told(talk, cache, Ok(answer), drawn);
            &&& kept == cache.remove(local_address(talk.ports[talk.at]))
            &&& lets_itself_in(
                ConversationView { renewed: true, ..talk },
                after,
                kept,
                drawn,
            )
        }),
{
    law_texts_are_read_from_members(answer, "error_code"@, "INVALID_TOKEN"@);
}

/// Whether an entry of a list is the first from one on that has an identifier.
pub open spec fn is_next_entry(entries: Seq<Json>, from: int, at: int) -> bool {
    &&& from <= at < entries.len()
    &&& !lacks_member(entries[at], "task_id"@)
    &&& forall|j: int| from <= j < at ==> lacks_member(#[trigger] entries[j], "task_id"@)
}

/// Whether no entry of a list from one on has an identifier.
pub open spec fn has_no_more_entries(entries: Seq<Json>, from: int) -> bool {
    forall|j: int| from <= j < entries.len() ==> lacks_member(#[trigger] entries[j], "task_id"@)
}

proof fn lemma_next_entry(entries: Seq<Json>, from: int, at: int)
    requires
        0 <= from,
    ensures
        is_next_entry(entries, from, at) ==> next_entry(entries, from) == at,
        has_no_more_entries(entries, from) ==> next_entry(entries, from) == entries.len(),
    decreases entries.len() - from,
{
    if from < entries.len() {
        law_members_are_found_by_their_names(entries[from], "task_id"@, Json::Null);
        lemma_next_entry(entries, from + 1, at);
        if is_next_entry(entries, from, at) && at != from {
            assert(lacks_member(entries[from], "task_id"@));
        }
        if has_no_more_entries(entries, from) {
            assert(lacks_member(entries[from], "task_id"@));
        }
    }
}

/// A list of tasks is gone through entry by entry, those without an identifier
/// left out; for each, its summary is asked for. What both say makes the tasks,
/// which, with the version, are what the conversation ends with.
pub proof fn law_tasks_are_fetched_one_by_one(
    talk: ConversationView,
    cache: Map<Seq<char>, Seq<char>>,
    answer: Json,
    entries: Vec<Json>,
    at: int,
    drawn: Result<Salts, String>,
)
    requires
        talk.phase is Ask,
        talk.goal is Tasks,
        member_says(answer, "error_code"@, "OK"@),
        has_member(answer, "tasks"@, Json::List(entries)),
    ensures
        ({
            let (after, kept) = told(talk, cache, Ok(answer), drawn);
            &&& kept == cache
            &&& is_next_entry(entries@, 0, at) ==> after == (ConversationView {
                phase: PhaseView::Summary {
                    token: talk.phase->Ask_token,
                    list: answer,
                    at,
                    tasks: Seq::empty(),
                },
                ..talk
            })
            &&& has_no_more_entries(entries@, 0) ==> (
            after.phase matches PhaseView::Finished(OutcomeView::Tasks(tasks, version))
                && tasks.len() == 0 && (talk.version is Some ==> version == talk.version->Some_0)
                && (talk.version is None ==> version == "未知"@))
        }),
{
    reveal_strlit("OK");
    reveal_strlit("INVALID_TOKEN");
    assert("OK"@.len() == 2 && "INVALID_TOKEN"@.len() == 13);
    law_texts_are_read_from_members(answer, "error_code"@, "OK"@);
    law_members_are_found_by_their_names(answer, "tasks"@, Json::List(entries));
    assert(entries_of(answer) == entries@);
    lemma_next_entry(entries@, 0, at);
}

/// A summary adds a task where it and its entry describe one, and the next
/// entry is asked for, or the conversation ends with all tasks.
pub proof fn law_summaries_add_tasks(
    talk: ConversationView,
    cache: Map<Seq<char>, Seq<char>>,
    list: Json,
    entries: Vec<Json>,
    place: int,
    tasks: Seq<ReportedView>,
    token: Seq<char>,
    summary: Json,
    at: int,
    drawn: Result<Salts, String>,
)
    requires
        talk.phase == (PhaseView::Summary { token, list, at: place, tasks }),
        has_member(list, "tasks"@, Json::List(entries)),
        0 <= place < entries@.len(),
    ensures
        ({
            let (after, kept) = told(talk, cache, Ok(summary), drawn);
            let found = match webui_task(entries@[place], summary) {
                Some(task) => tasks.push(task),
                None => tasks,
            };
            &&& kept == cache
            &&& is_next_entry(entries@, place + 1, at) ==> after == (ConversationView {
                phase: PhaseView::Summary { token, list, at, tasks: found },
                ..talk
            })
            &&& has_no_more_entries(entries@, place + 1) ==> (
            after.phase matches PhaseView::Finished(OutcomeView::Tasks(all, version)) && all
                == found && (talk.version is Some ==> version == talk.version->Some_0) && (
            talk.version is None ==> version == "未知"@))
        }),
{
    law_members_are_found_by_their_names(list, "tasks"@, Json::List(entries));
    assert(entries_of(list) == entries@);
    lemma_next_entry(entries@, place + 1, at);
}

/// What is asked for is answered, or refused: an action that has succeeded ends
/// the conversation well, and any other answer ends it with what is wrong.
pub proof fn law_answers_end_the_conversation(
    talk: ConversationView,
    cache: Map<Seq<char>, Seq<char>>,
    answer: Json,
    drawn: Result<Salts, String>,
)
    requires
        talk.phase is Ask,
        talk.renewed || !member_says(answer, "error_code"@, "INVALID_TOKEN"@),
    ensures
        talk.goal matches GoalView::Control { action, .. } ==> {
            &&& has_succeeded(answer, action) ==> told(talk, cache, Ok(answer), drawn) == (
                ConversationView { phase: PhaseView::Finished(OutcomeView::Acted), ..talk },
                cache,
            )
            &&& !has_succeeded(answer, action) ==> told(talk, cache, Ok(answer), drawn) == (
                ended_with(talk, error_in(answer)),
                cache,
            )
        },
        talk.goal is Tasks && !member_says(answer, "error_code"@, "OK"@) ==> told(
            talk,
            cache,
            Ok(answer),
            drawn,
        ) == (ended_with(talk, error_in(answer)), cache),
{
    law_texts_are_read_from_members(answer, "error_code"@, "INVALID_TOKEN"@);
    law_texts_are_read_from_members(answer, "error_code"@, "OK"@);
}

/// Whether a conversation asks its port for something, with a body and a token.
pub open spec fn asks(
    talk: ConversationView,
    path: Seq<char>,
    body: Seq<(Seq<char>, FieldView)>,
    token: Option<Seq<char>>,
) -> bool {
    &&& request_of(talk) matches Some(request)
    &&& request.url == local_address(talk.ports[talk.at]) + path
    &&& request.body == body
    &&& request.token == token
}

/// Each phase of a conversation asks one thing of its port: whether it is
/// there, to be let in, for a token, for the tasks or an action, and for a
/// summary. The latter bear a token.
pub proof fn law_each_phase_asks_one_thing(talk: ConversationView, text: Seq<char>)
    ensures
        talk.phase is Finished <==> request_of(talk) is None,
        talk.phase is Verify ==> asks(talk, "/api/webui/ip_verify"@, Seq::empty(), None),
        talk.phase == (PhaseView::Login { authentication: Some(text) }) ==> asks(
            talk,
            "/api/webui/login"@,
            seq![
                ("client_id"@, FieldView::Text(talk.device_id)),
                ("authentication"@, FieldView::Text(text)),
            ],
            None,
        ),
        talk.phase == (PhaseView::Login { authentication: None }) ==> asks(
            talk,
            "/api/webui/login"@,
            seq![
                ("client_id"@, FieldView::Text(talk.device_id)),
                ("bypass"@, FieldView::Flag(true)),
            ],
            None,
        ),
        talk.phase == (PhaseView::Device { invite: text }) ==> asks(
            talk,
            "/api/device_token/get"@,
            seq![
                ("invite_token"@, FieldView::Text(text)),
                ("device_id"@, FieldView::Text(talk.device_id)),
                ("device_name"@, FieldView::Text("Mikan下载助手 @ Windows"@)),
                ("platform"@, FieldView::Text("webui"@)),
            ],
            Some(text),
        ),
        talk.phase == (PhaseView::Ask { token: text }) && talk.goal is Tasks ==> asks(
            talk,
            "/api_v2/task_list/get"@,
            seq![
                ("state_group"@, FieldView::Text("ALL"@)),
                ("task_type"@, FieldView::Text("ALL"@)),
                ("tag_filter"@, FieldView::Text("ALL"@)),
                ("sort_key"@, FieldView::Text(Seq::empty())),
                ("sort_order"@, FieldView::Text("unsorted"@)),
                ("keyword"@, FieldView::Text(Seq::empty())),
            ],
            Some(text),
        ),
        talk.phase == (PhaseView::Ask { token: text }) ==> (
        talk.goal matches GoalView::Control { endpoint, task_id, action } ==> asks(
            talk,
            endpoint,
            seq![
                ("task_ids"@, FieldView::Texts(seq![task_id])),
                ("action"@, FieldView::Text(action)),
            ],
            Some(text),
        )),
{
    if let PhaseView::Login { authentication } = talk.phase {
        let body = request_of(talk)->Some_0.body;
        let client = ("client_id"@, FieldView::Text(talk.device_id));
        match authentication {
            Some(text) => {
                assert(body =~= seq![client, ("authentication"@, FieldView::Text(text))]);
            },
            None => {
                assert(body =~= seq![client, ("bypass"@, FieldView::Flag(true))]);
            },
        }
    }
}

/// A summary is asked for by the identifier that the entry of the list has.
pub proof fn law_summary_is_asked_for_by_its_identifier(
    talk: ConversationView,
    list: Json,
    entries: Vec<Json>,
    place: int,
    tasks: Seq<ReportedView>,
    token: Seq<char>,
    identifier: Json,
)
    requires
        talk.phase == (PhaseView::Summary { token, list, at: place, tasks }),
        has_member(list, "tasks"@, Json::List(entries)),
        0 <= place < entries@.len(),
        has_member(entries@[place], "task_id"@, identifier),
    ensures
        asks(
            talk,
            "/api/tasks/info/get"@,
            seq![("task_id"@, FieldView::Value(identifier))],
            Some(token),
        ),
{
    law_members_are_found_by_their_names(list, "tasks"@, Json::List(entries));
    law_members_are_found_by_their_names(entries@[place], "task_id"@, identifier);
    assert(entries_of(list) == entries@);
}

} // verus!
