//! Conversations with the web interface: one that fetches the tasks, and one
//! that lets a task start, stop or go. A conversation says what to ask next
//! and is told the answer, until it is finished.

use vstd::prelude::*;
use vstd::string::*;
use vstd::utf8::*;

use crate::bitcomet::login::{
    client_device_id, credentials, credentials_of, device_id_of, seal, sealed, Salts, TokenCache,
    LONGEST_PLAINTEXT,
};
use crate::bitcomet::tasks::{reported_view, ReportedTask, ReportedView};
use crate::bitcomet::webui::{
    api_error, control_action_succeeded, error_in, has_succeeded, parse_webui_task, webui_task,
    WebUiConfig,
};
use crate::json::{given_text, list_in, member_of, string_value, text_in, Json};
use crate::number::{decimal, decimal_text};
use crate::text::{clone_optional, joined, optional};

verus! {

/// What a conversation is for.
#[derive(Debug)]
pub enum Goal {
    Tasks,
    Control { endpoint: String, task_id: String, action: String },
}

/// The contents of a `Goal`.
pub enum GoalView {
    Tasks,
    Control { endpoint: Seq<char>, task_id: Seq<char>, action: Seq<char> },
}

impl View for Goal {
    type V = GoalView;

    open spec fn view(&self) -> GoalView {
        match self {
            Goal::Tasks => GoalView::Tasks,
            Goal::Control { endpoint, task_id, action } => GoalView::Control {
                endpoint: endpoint@,
                task_id: task_id@,
                action: action@,
            },
        }
    }
}

/// How a conversation ends: with the tasks and the version of BitComet, with
/// an action that was taken, or with a message and the version as far as it is
/// known.
#[derive(Debug)]
pub enum Outcome {
    Tasks(Vec<ReportedTask>, String),
    Acted,
    Failed(Option<String>, String),
}

/// The contents of an `Outcome`.
pub enum OutcomeView {
    Tasks(Seq<ReportedView>, Seq<char>),
    Acted,
    Failed(Option<Seq<char>>, Seq<char>),
}

impl View for Outcome {
    type V = OutcomeView;

    open spec fn view(&self) -> OutcomeView {
        match self {
            Outcome::Tasks(tasks, version) => OutcomeView::Tasks(reported_view(tasks@), version@),
            Outcome::Acted => OutcomeView::Acted,
            Outcome::Failed(version, message) => OutcomeView::Failed(optional(*version), message@),
        }
    }
}

/// Where a conversation stands: what it is about to ask, or its end.
#[derive(Debug)]
pub enum Phase {
    /// Whether the interface is there.
    Verify,
    /// To be let in: with sealed credentials, or without any.
    Login { authentication: Option<String> },
    /// For a token, with the invitation that came of the login.
    Device { invite: String },
    /// For the tasks, or for the action.
    Ask { token: String },
    /// For the summary of an entry of the task list.
    Summary { token: String, list: Json, at: usize, tasks: Vec<ReportedTask> },
    Finished(Outcome),
}

/// The contents of a `Phase`.
pub enum PhaseView {
    Verify,
    Login { authentication: Option<Seq<char>> },
    Device { invite: Seq<char> },
    Ask { token: Seq<char> },
    Summary { token: Seq<char>, list: Json, at: int, tasks: Seq<ReportedView> },
    Finished(OutcomeView),
}

impl View for Phase {
    type V = PhaseView;

    open spec fn view(&self) -> PhaseView {
        match self {
            Phase::Verify => PhaseView::Verify,
            Phase::Login { authentication } => PhaseView::Login {
                authentication: optional(*authentication),
            },
            Phase::Device { invite } => PhaseView::Device { invite: invite@ },
            Phase::Ask { token } => PhaseView::Ask { token: token@ },
            Phase::Summary { token, list, at, tasks } => PhaseView::Summary {
                token: token@,
                list: *list,
                at: *at as int,
                tasks: reported_view(tasks@),
            },
            Phase::Finished(outcome) => PhaseView::Finished(outcome@),
        }
    }
}

/// A conversation with the web interface.
#[derive(Debug)]
pub struct Conversation {
    goal: Goal,
    config: WebUiConfig,
    device_id: String,
    /// The place of the port that is tried.
    at: usize,
    /// Whether this device is let in without credentials.
    bypass: bool,
    /// Whether a token was refused once.
    renewed: bool,
    version: Option<String>,
    phase: Phase,
}

/// The contents of a `Conversation`.
pub struct ConversationView {
    pub goal: GoalView,
    pub ports: Seq<u16>,
    pub username: Seq<char>,
    pub password: Seq<char>,
    pub device_id: Seq<char>,
    pub at: int,
    pub bypass: bool,
    pub renewed: bool,
    pub version: Option<Seq<char>>,
    pub phase: PhaseView,
}

impl View for Conversation {
    type V = ConversationView;

    closed spec fn view(&self) -> ConversationView {
        ConversationView {
            goal: self.goal@,
            ports: self.config.ports@,
            username: self.config.username@,
            password: self.config.password@,
            device_id: self.device_id@,
            at: self.at as int,
            bypass: self.bypass,
            renewed: self.renewed,
            version: optional(self.version),
            phase: self.phase@,
        }
    }
}

/// The entries of a task list.
pub open spec fn entries_of(list: Json) -> Seq<Json> {
    match list_in(member_of(list, "tasks"@)) {
        Some(entries) => entries,
        None => Seq::empty(),
    }
}

/// The first entry with an identifier, from one on, or the number of entries.
pub open spec fn next_entry(entries: Seq<Json>, from: int) -> int
    decreases entries.len() - from,
{
    if from < 0 || from >= entries.len() {
        entries.len() as int
    } else if member_of(entries[from], "task_id"@) is Some {
        from
    } else {
        next_entry(entries, from + 1)
    }
}

/// The address of a port on this machine.
pub open spec fn base_of(port: u16) -> Seq<char> {
    "http://127.0.0.1:"@ + decimal_text(port as nat)
}

impl ConversationView {
    /// Whether the places of a conversation are within what they count.
    pub open spec fn wf(self) -> bool {
        match self.phase {
            PhaseView::Finished(_) => true,
            PhaseView::Summary { list, at, .. } => {
                &&& 0 <= self.at < self.ports.len()
                &&& 0 <= at < entries_of(list).len()
                &&& member_of(entries_of(list)[at], "task_id"@) is Some
            },
            _ => 0 <= self.at < self.ports.len(),
        }
    }

    /// The address that is talked to.
    pub open spec fn base(self) -> Seq<char> {
        base_of(self.ports[self.at])
    }

    /// The conversation in another phase.
    pub open spec fn in_phase(self, phase: PhaseView) -> ConversationView {
        ConversationView { phase, ..self }
    }

    /// The conversation, ended with a message.
    pub open spec fn failed(self, message: Seq<char>) -> ConversationView {
        self.in_phase(PhaseView::Finished(OutcomeView::Failed(self.version, message)))
    }

    /// The conversation, about to ask at its port, or ended where no port is
    /// left.
    pub open spec fn verifying(self) -> ConversationView {
        if self.at < self.ports.len() {
            self.in_phase(PhaseView::Verify)
        } else {
            self.failed(unreachable_text(self.goal, self.ports))
        }
    }

    /// The credentials as they are sealed.
    pub open spec fn plaintext(self) -> Seq<u8> {
        encode_utf8(credentials_of(self.username, self.password))
    }

    /// Whether the conversation has to log in with sealed credentials, for
    /// which random bytes are drawn.
    pub open spec fn seals(self, cache: Map<Seq<char>, Seq<char>>) -> bool {
        &&& !cache.contains_key(self.base())
        &&& !self.bypass
        &&& self.username.len() > 0
        &&& self.plaintext().len() <= LONGEST_PLAINTEXT
    }

    /// The conversation, about to ask with the token of its address, or to
    /// log in for one, given the random bytes that were drawn.
    pub open spec fn authenticating(
        self,
        cache: Map<Seq<char>, Seq<char>>,
        drawn: Result<Salts, String>,
    ) -> ConversationView {
        if cache.contains_key(self.base()) {
            self.in_phase(PhaseView::Ask { token: cache[self.base()] })
        } else if self.bypass {
            self.in_phase(PhaseView::Login { authentication: None })
        } else if self.username.len() == 0 {
            self.failed(
                "BitComet WebUI 需要登录，但未在 BitComet.xml 中找到用户名；可开启“允许本机免登录”"@,
            )
        } else if self.plaintext().len() > LONGEST_PLAINTEXT {
            self.failed("Credentials are too long"@)
        } else {
            match drawn {
                Ok(salts) => self.in_phase(
                    PhaseView::Login {
                        authentication: Some(
                            sealed(
                                self.plaintext(),
                                encode_utf8(self.device_id),
                                salts.key@,
                                salts.hmac@,
                                salts.iv@,
                            ),
                        ),
                    },
                ),
                Err(fault) => self.failed(fault@),
            }
        }
    }

    /// The conversation behind an entry of the task list: about to ask for
    /// the summary of the next one, or ended with the tasks.
    pub open spec fn summing_up(
        self,
        token: Seq<char>,
        list: Json,
        from: int,
        tasks: Seq<ReportedView>,
    ) -> ConversationView {
        let at = next_entry(entries_of(list), from);
        if at < entries_of(list).len() {
            self.in_phase(PhaseView::Summary { token, list, at, tasks })
        } else {
            let version = match self.version {
                Some(version) => version,
                None => "未知"@,
            };
            self.in_phase(PhaseView::Finished(OutcomeView::Tasks(tasks, version)))
        }
    }
}

/// Ports in writing, with a comma between any two.
pub open spec fn ports_text(ports: Seq<u16>) -> Seq<char>
    decreases ports.len(),
{
    if ports.len() == 0 {
        Seq::empty()
    } else if ports.len() == 1 {
        decimal_text(ports[0] as nat)
    } else {
        ports_text(ports.drop_last()) + "、"@ + decimal_text(ports.last() as nat)
    }
}

/// What is said where no port answers.
pub open spec fn unreachable_text(goal: GoalView, ports: Seq<u16>) -> Seq<char> {
    match goal {
        GoalView::Tasks =>
            "无法连接 BitComet WebUI；请在 BitComet 设置 > 远程访问中启用 Web UI（已检查端口 "@
            + ports_text(ports) + "）"@,
        GoalView::Control { .. } => "无法连接 BitComet WebUI"@,
    }
}

/// What is said where the interface is switched off.
pub open spec fn disabled_text(port: u16) -> Seq<char> {
    "BitComet WebUI 未开启；请在 BitComet 设置的远程访问中启用 WebUI（端口 "@ + decimal_text(
        port as nat,
    ) + "）"@
}

/// What a request says, as a member of an object.
#[derive(Debug)]
pub enum Field<'a> {
    Text(String),
    Flag(bool),
    Texts(Vec<String>),
    Value(&'a Json),
}

/// The contents of a `Field`.
pub enum FieldView {
    Text(Seq<char>),
    Flag(bool),
    Texts(Seq<Seq<char>>),
    Value(Json),
}

impl<'a> View for Field<'a> {
    type V = FieldView;

    open spec fn view(&self) -> FieldView {
        match self {
            Field::Text(text) => FieldView::Text(text@),
            Field::Flag(flag) => FieldView::Flag(*flag),
            Field::Texts(list) => FieldView::Texts(crate::text::texts(list@)),
            Field::Value(value) => FieldView::Value(**value),
        }
    }
}

/// A request: where it goes, the object that it carries and the token that it
/// bears.
#[derive(Debug)]
pub struct Request<'a> {
    pub url: String,
    pub body: Vec<(String, Field<'a>)>,
    pub token: Option<String>,
}

/// The contents of a `Request`.
pub struct RequestView {
    pub url: Seq<char>,
    pub body: Seq<(Seq<char>, FieldView)>,
    pub token: Option<Seq<char>>,
}

/// The members of an object.
pub open spec fn body_view<'a>(body: Seq<(String, Field<'a>)>) -> Seq<(Seq<char>, FieldView)> {
    Seq::new(body.len(), |i: int| (body[i].0@, body[i].1@))
}

impl<'a> View for Request<'a> {
    type V = RequestView;

    open spec fn view(&self) -> RequestView {
        RequestView {
            url: self.url@,
            body: body_view(self.body@),
            token: optional(self.token),
        }
    }
}

/// What is asked to have all tasks.
pub open spec fn list_query() -> Seq<(Seq<char>, FieldView)> {
    seq![
        ("state_group"@, FieldView::Text("ALL"@)),
        ("task_type"@, FieldView::Text("ALL"@)),
        ("tag_filter"@, FieldView::Text("ALL"@)),
        ("sort_key"@, FieldView::Text(Seq::empty())),
        ("sort_order"@, FieldView::Text("unsorted"@)),
        ("keyword"@, FieldView::Text(Seq::empty())),
    ]
}

/// What a conversation asks next, unless it is finished.
pub open spec fn request_of(talk: ConversationView) -> Option<RequestView> {
    let base = talk.base();
    match talk.phase {
        PhaseView::Verify => Some(
            RequestView {
                url: base + "/api/webui/ip_verify"@,
                body: Seq::empty(),
                token: None,
            },
        ),
        PhaseView::Login { authentication } => Some(
            RequestView {
                url: base + "/api/webui/login"@,
                body: seq![
                    ("client_id"@, FieldView::Text(talk.device_id)),
                    match authentication {
                        Some(text) => ("authentication"@, FieldView::Text(text)),
                        None => ("bypass"@, FieldView::Flag(true)),
                    },
                ],
                token: None,
            },
        ),
        PhaseView::Device { invite } => Some(
            RequestView {
                url: base + "/api/device_token/get"@,
                body: seq![
                    ("invite_token"@, FieldView::Text(invite)),
                    ("device_id"@, FieldView::Text(talk.device_id)),
                    ("device_name"@, FieldView::Text("Mikan下载助手 @ Windows"@)),
                    ("platform"@, FieldView::Text("webui"@)),
                ],
                token: Some(invite),
            },
        ),
        PhaseView::Ask { token } => Some(
            match talk.goal {
                GoalView::Tasks => RequestView {
                    url: base + "/api_v2/task_list/get"@,
                    body: list_query(),
                    token: Some(token),
                },
                GoalView::Control { endpoint, task_id, action } => RequestView {
                    url: base + endpoint,
                    body: seq![
                        ("task_ids"@, FieldView::Texts(seq![task_id])),
                        ("action"@, FieldView::Text(action)),
                    ],
                    token: Some(token),
                },
            },
        ),
        PhaseView::Summary { token, list, at, .. } => Some(
            RequestView {
                url: base + "/api/tasks/info/get"@,
                body: seq![
                    (
                        "task_id"@,
                        FieldView::Value(member_of(entries_of(list)[at], "task_id"@)->Some_0),
                    ),
                ],
                token: Some(token),
            },
        ),
        PhaseView::Finished(_) => None,
    }
}

/// Whether an answer says that the interface is switched off.
pub open spec fn is_disabled(answer: Json) -> bool {
    text_in(member_of(answer, "error_code"@)) == Some("APP_ACCESS_DISABLED"@)
}

/// Whether an answer says that this device is let in without credentials.
pub open spec fn lets_in(answer: Json) -> bool {
    member_of(answer, "bypass_eligible"@) == Some(Json::Bool(true))
}

/// A conversation behind an answer on whether the interface is there.
pub open spec fn verified(
    talk: ConversationView,
    answer: Json,
    cache: Map<Seq<char>, Seq<char>>,
    drawn: Result<Salts, String>,
) -> ConversationView {
    let bypass = lets_in(answer);
    match talk.goal {
        GoalView::Tasks => {
            let version = match given_text(answer, ["version"]@) {
                Some(version) => Some(version),
                None => talk.version,
            };
            let told = ConversationView { version, ..talk };
            if is_disabled(answer) {
                told.failed(disabled_text(talk.ports[talk.at]))
            } else {
                ConversationView { bypass, ..told }.authenticating(cache, drawn)
            }
        },
        GoalView::Control { .. } => ConversationView { bypass, ..talk }.authenticating(cache, drawn),
    }
}

/// A conversation, and the tokens that are remembered, behind an answer to
/// what the conversation is for. A token that is refused is given up, and a
/// new one is asked for, but only once.
pub open spec fn answered(
    talk: ConversationView,
    token: Seq<char>,
    answer: Json,
    cache: Map<Seq<char>, Seq<char>>,
    drawn: Result<Salts, String>,
) -> (ConversationView, Map<Seq<char>, Seq<char>>) {
    let code = text_in(member_of(answer, "error_code"@));
    if code == Some("INVALID_TOKEN"@) && !talk.renewed {
        let left = cache.remove(talk.base());
        (ConversationView { renewed: true, ..talk }.authenticating(left, drawn), left)
    } else {
        (
            match talk.goal {
                GoalView::Tasks => if code == Some("OK"@) {
                    talk.summing_up(token, answer, 0, Seq::empty())
                } else {
                    talk.failed(error_in(answer))
                },
                GoalView::Control { action, .. } => if has_succeeded(answer, action) {
                    talk.in_phase(PhaseView::Finished(OutcomeView::Acted))
                } else {
                    talk.failed(error_in(answer))
                },
            },
            cache,
        )
    }
}

/// A conversation, and the tokens that are remembered, behind the answer to
/// what was asked.
pub open spec fn told(
    talk: ConversationView,
    cache: Map<Seq<char>, Seq<char>>,
    reply: Result<Json, String>,
    drawn: Result<Salts, String>,
) -> (ConversationView, Map<Seq<char>, Seq<char>>) {
    match (talk.phase, reply) {
        (PhaseView::Finished(_), _) => (talk, cache),
        (PhaseView::Verify, Err(_)) => (
            ConversationView { at: talk.at + 1, ..talk }.verifying(),
            cache,
        ),
        (_, Err(message)) => (talk.failed(message@), cache),
        (PhaseView::Verify, Ok(answer)) => (verified(talk, answer, cache, drawn), cache),
        (PhaseView::Login { .. }, Ok(answer)) => {
            let invite = text_in(member_of(answer, "invite_token"@));
            (
                if invite is Some && text_in(member_of(answer, "error_code"@)) == Some("OK"@) {
                    talk.in_phase(PhaseView::Device { invite: invite->Some_0 })
                } else {
                    talk.failed(error_in(answer))
                },
                cache,
            )
        },
        (PhaseView::Device { .. }, Ok(answer)) => match text_in(
            member_of(answer, "device_token"@),
        ) {
            Some(token) => (
                talk.in_phase(PhaseView::Ask { token }),
                cache.insert(talk.base(), token),
            ),
            None => (talk.failed(error_in(answer)), cache),
        },
        (PhaseView::Ask { token }, Ok(answer)) => answered(talk, token, answer, cache, drawn),
        (PhaseView::Summary { token, list, at, tasks }, Ok(answer)) => (
            talk.summing_up(
                token,
                list,
                at + 1,
                match webui_task(entries_of(list)[at], answer) {
                    Some(task) => tasks.push(task),
                    None => tasks,
                },
            ),
            cache,
        ),
    }
}

/// Whether random bytes that were drawn are as many as there have to be.
pub open spec fn is_drawn(drawn: Result<Salts, String>) -> bool {
    drawn matches Ok(salts) ==> salts.wf()
}

/// Whether random bytes are drawn behind an answer: where the interface is
/// there, or a token is refused for the first time, and the conversation has
/// to log in with sealed credentials.
pub open spec fn draws(
    talk: ConversationView,
    cache: Map<Seq<char>, Seq<char>>,
    reply: Result<Json, String>,
) -> bool {
    match (talk.phase, reply) {
        (PhaseView::Verify, Ok(answer)) => !(talk.goal is Tasks && is_disabled(answer))
            && ConversationView { bypass: lets_in(answer), ..talk }.seals(cache),
        (PhaseView::Ask { .. }, Ok(answer)) => !talk.renewed && text_in(
            member_of(answer, "error_code"@),
        ) == Some("INVALID_TOKEN"@) && talk.seals(cache.remove(talk.base())),
        _ => false,
    }
}

fn write_ports(ports: &Vec<u16>) -> (r: String)
    ensures
        r@ == ports_text(ports@),
{
    let mut text = String::new();
    let mut i: usize = 0;
    while i < ports.len()
        invariant
            i <= ports@.len(),
            text@ == ports_text(ports@.take(i as int)),
        decreases ports@.len() - i,
    {
        assert(ports@.take(i + 1).drop_last() =~= ports@.take(i as int));
        let number = decimal(ports[i] as u64);
        if i > 0 {
            text.append("、");
            text.append(&number);
        } else {
            text = number;
        }
        i += 1;
    }
    assert(ports@.take(i as int) =~= ports@);
    text
}

fn text_field<'a>(name: &str, text: &str) -> (r: (String, Field<'a>))
    ensures
        r.0@ == name@,
        r.1@ == FieldView::Text(text@),
{
    (name.to_string(), Field::Text(text.to_string()))
}

fn find_entry(list: &Json, from: usize) -> (r: Option<usize>)
    ensures
        match r {
            Some(at) => next_entry(entries_of(*list), from as int) == at && at < entries_of(
                *list,
            ).len() && member_of(entries_of(*list)[at as int], "task_id"@) is Some,
            None => next_entry(entries_of(*list), from as int) == entries_of(*list).len(),
        },
{
    match list.member("tasks") {
        Some(Json::List(entries)) => {
            let mut at: usize = from;
            while at < entries.len()
                invariant
                    entries_of(*list) == entries@,
                    next_entry(entries@, from as int) == next_entry(entries@, at as int),
                decreases entries@.len() - at,
            {
                if entries[at].member("task_id").is_some() {
                    return Some(at);
                }
                at += 1;
            }
            None
        },
        _ => None,
    }
}

fn entry_of<'a>(list: &'a Json, at: usize) -> (r: &'a Json)
    requires
        at < entries_of(*list).len(),
    ensures
        *r == entries_of(*list)[at as int],
        entries_of(*list).len() <= usize::MAX,
{
    match list.member("tasks") {
        Some(Json::List(entries)) => {
            assert(entries.len() == entries@.len());
            &entries[at]
        },
        _ => list,
    }
}

fn list_fields<'a>() -> (r: Vec<(String, Field<'a>)>)
    ensures
        body_view(r@) == list_query(),
{
    let empty = String::new();
    let body = vec![
        text_field("state_group", "ALL"),
        text_field("task_type", "ALL"),
        text_field("tag_filter", "ALL"),
        text_field("sort_key", &empty),
        text_field("sort_order", "unsorted"),
        text_field("keyword", &empty),
    ];
    assert(body_view(body@) =~= list_query());
    body
}

impl Conversation {
    fn start(goal: Goal, config: WebUiConfig, executable: &str) -> (r: Conversation)
        ensures
            r@ == (ConversationView {
                goal: goal@,
                ports: config.ports@,
                username: config.username@,
                password: config.password@,
                device_id: device_id_of(executable@),
                at: 0,
                bypass: false,
                renewed: false,
                version: None,
                phase: PhaseView::Verify,
            }).verifying(),
            r@.wf(),
    {
        let mut talk = Conversation {
            goal,
            config,
            device_id: client_device_id(executable),
            at: 0,
            bypass: false,
            renewed: false,
            version: None,
            phase: Phase::Verify,
        };
        talk.verify();
        talk
    }

    /// Begins a conversation that fetches the tasks.
    pub fn fetch_webui_tasks(config: WebUiConfig, executable: &str) -> (r: Conversation)
        ensures
            r@ == (ConversationView {
                goal: GoalView::Tasks,
                ports: config.ports@,
                username: config.username@,
                password: config.password@,
                device_id: device_id_of(executable@),
                at: 0,
                bypass: false,
                renewed: false,
                version: None,
                phase: PhaseView::Verify,
            }).verifying(),
            r@.wf(),
    {
        Conversation::start(Goal::Tasks, config, executable)
    }

    /// Begins a conversation that lets a task do something.
    pub fn control(
        config: WebUiConfig,
        executable: &str,
        endpoint: &str,
        task_id: String,
        action: &str,
    ) -> (r: Conversation)
        ensures
            r@ == (ConversationView {
                goal: GoalView::Control {
                    endpoint: endpoint@,
                    task_id: task_id@,
                    action: action@,
                },
                ports: config.ports@,
                username: config.username@,
                password: config.password@,
                device_id: device_id_of(executable@),
                at: 0,
                bypass: false,
                renewed: false,
                version: None,
                phase: PhaseView::Verify,
            }).verifying(),
            r@.wf(),
    {
        let goal = Goal::Control {
            endpoint: endpoint.to_string(),
            task_id,
            action: action.to_string(),
        };
        Conversation::start(goal, config, executable)
    }

    fn base(&self) -> (r: String)
        requires
            self.at < self.config.ports@.len(),
        ensures
            r@ == self@.base(),
    {
        joined("http://127.0.0.1:", &decimal(self.config.ports[self.at] as u64))
    }

    fn fail(&mut self, message: String)
        ensures
            final(self)@ == old(self)@.failed(message@),
    {
        self.phase = Phase::Finished(Outcome::Failed(clone_optional(&self.version), message));
    }

    fn verify(&mut self)
        ensures
            final(self)@ == old(self)@.verifying(),
    {
        if self.at < self.config.ports.len() {
            self.phase = Phase::Verify;
            return;
        }
        let message = match &self.goal {
            Goal::Tasks => {
                let mut text =
                    "无法连接 BitComet WebUI；请在 BitComet 设置 > 远程访问中启用 Web UI（已检查端口 ".to_string();
                text.append(&write_ports(&self.config.ports));
                text.append("）");
                text
            },
            Goal::Control { .. } => "无法连接 BitComet WebUI".to_string(),
        };
        self.fail(message);
    }

    fn authenticate(&mut self, cache: &TokenCache, drawn: &Result<Salts, String>)
        requires
            old(self).at < old(self).config.ports@.len(),
            is_drawn(*drawn),
        ensures
            final(self)@ == old(self)@.authenticating(cache@, *drawn),
    {
        if let Some(token) = cache.get(&self.base()) {
            self.phase = Phase::Ask { token };
            return;
        }
        if self.bypass {
            self.phase = Phase::Login { authentication: None };
            return;
        }
        if self.config.username.as_str().is_empty() {
            self.fail(
                "BitComet WebUI 需要登录，但未在 BitComet.xml 中找到用户名；可开启“允许本机免登录”".to_string(),
            );
            return;
        }
        let text = credentials(&self.config.username, &self.config.password);
        if text.as_str().as_bytes().len() > LONGEST_PLAINTEXT {
            self.fail("Credentials are too long".to_string());
            return;
        }
        match drawn {
            Ok(salts) => {
                let authentication = Some(seal(&text, &self.device_id, salts));
                self.phase = Phase::Login { authentication };
            },
            Err(fault) => {
                self.fail(fault.clone());
            },
        }
    }

    fn sum_up(&mut self, token: String, list: Json, from: usize, tasks: Vec<ReportedTask>)
        ensures
            final(self)@ == old(self)@.summing_up(
                token@,
                list,
                from as int,
                reported_view(tasks@),
            ),
            old(self)@.at < old(self)@.ports.len() ==> final(self)@.wf(),
    {
        match find_entry(&list, from) {
            Some(at) => {
                self.phase = Phase::Summary { token, list, at, tasks };
            },
            None => {
                let version = match &self.version {
                    Some(version) => version.clone(),
                    None => "未知".to_string(),
                };
                self.phase = Phase::Finished(Outcome::Tasks(tasks, version));
            },
        }
    }

    /// What the conversation asks next, unless it is finished.
    pub fn request(&self) -> (r: Option<Request<'_>>)
        requires
            self@.wf(),
        ensures
            match r {
                Some(request) => request_of(self@) == Some(request@),
                None => request_of(self@) is None,
            },
    {
        let next = match &self.phase {
            Phase::Finished(_) => None,
            Phase::Verify => {
                let body: Vec<(String, Field<'_>)> = Vec::new();
                assert(body_view(body@) =~= Seq::empty());
                Some(
                    Request {
                        url: joined(&self.base(), "/api/webui/ip_verify"),
                        body,
                        token: None,
                    },
                )
            },
            Phase::Login { authentication } => {
                let credential = match authentication {
                    Some(text) => text_field("authentication", text),
                    None => ("bypass".to_string(), Field::Flag(true)),
                };
                let ghost second = (credential.0@, credential.1@);
                let body = vec![text_field("client_id", &self.device_id), credential];
                assert(body_view(body@) =~= seq![
                    ("client_id"@, FieldView::Text(self.device_id@)),
                    second,
                ]);
                Some(Request { url: joined(&self.base(), "/api/webui/login"), body, token: None })
            },
            Phase::Device { invite } => {
                let body = vec![
                    text_field("invite_token", invite),
                    text_field("device_id", &self.device_id),
                    text_field("device_name", "Mikan下载助手 @ Windows"),
                    text_field("platform", "webui"),
                ];
                assert(body_view(body@) =~= seq![
                    ("invite_token"@, FieldView::Text(invite@)),
                    ("device_id"@, FieldView::Text(self.device_id@)),
                    ("device_name"@, FieldView::Text("Mikan下载助手 @ Windows"@)),
                    ("platform"@, FieldView::Text("webui"@)),
                ]);
                Some(
                    Request {
                        url: joined(&self.base(), "/api/device_token/get"),
                        body,
                        token: Some(invite.clone()),
                    },
                )
            },
            Phase::Ask { token } => match &self.goal {
                Goal::Tasks => Some(
                    Request {
                        url: joined(&self.base(), "/api_v2/task_list/get"),
                        body: list_fields(),
                        token: Some(token.clone()),
                    },
                ),
                Goal::Control { endpoint, task_id, action } => {
                    let ids = vec![task_id.clone()];
                    assert(crate::text::texts(ids@) =~= seq![task_id@]);
                    let body = vec![
                        ("task_ids".to_string(), Field::Texts(ids)),
                        text_field("action", action),
                    ];
                    assert(body_view(body@) =~= seq![
                        ("task_ids"@, FieldView::Texts(seq![task_id@])),
                        ("action"@, FieldView::Text(action@)),
                    ]);
                    Some(
                        Request {
                            url: joined(&self.base(), endpoint),
                            body,
                            token: Some(token.clone()),
                        },
                    )
                },
            },
            Phase::Summary { token, list, at, .. } => {
                let entry = entry_of(list, *at);
                match entry.member("task_id") {
                    Some(task_id) => {
                        let body = vec![("task_id".to_string(), Field::Value(task_id))];
                        assert(body_view(body@) =~= seq![
                            ("task_id"@, FieldView::Value(*task_id)),
                        ]);
                        Some(
                            Request {
                                url: joined(&self.base(), "/api/tasks/info/get"),
                                body,
                                token: Some(token.clone()),
                            },
                        )
                    },
                    None => None,
                }
            },
        };
        proof {
            if next is Some {
                let asked = next->Some_0@;
                let expected = request_of(self@)->Some_0;
                assert(expected.url =~= asked.url);
                assert(expected.body =~= asked.body);
                assert(expected.token == asked.token);
            }
        }
        next
    }

    fn receive_verified(&mut self, cache: &TokenCache, answer: &Json, drawn: &Result<Salts, String>)
        requires
            old(self).at < old(self).config.ports@.len(),
            is_drawn(*drawn),
        ensures
            final(self)@ == verified(old(self)@, *answer, cache@, *drawn),
    {
        if let Goal::Tasks = &self.goal {
            if let Some(version) = string_value(answer, &["version"]) {
                self.version = Some(version);
            }
            if answer.member_is("error_code", "APP_ACCESS_DISABLED") {
                let port = self.config.ports[self.at];
                let mut text =
                    "BitComet WebUI 未开启；请在 BitComet 设置的远程访问中启用 WebUI（端口 ".to_string();
                text.append(&decimal(port as u64));
                text.append("）");
                self.fail(text);
                return;
            }
        }
        self.bypass = answer.member_is_true("bypass_eligible");
        self.authenticate(cache, drawn);
    }

    fn receive_answer(&mut self, cache: &mut TokenCache, token: String, answer: Json, drawn: &Result<Salts, String>)
        requires
            old(self).at < old(self).config.ports@.len(),
            is_drawn(*drawn),
        ensures
            (final(self)@, final(cache)@) == answered(
                old(self)@,
                token@,
                answer,
                old(cache)@,
                *drawn,
            ),
            final(self)@.wf(),
    {
        if answer.member_is("error_code", "INVALID_TOKEN") && !self.renewed {
            cache.remove(&self.base());
            self.renewed = true;
            self.authenticate(cache, drawn);
            return;
        }
        let succeeded = match &self.goal {
            Goal::Tasks => {
                if answer.member_is("error_code", "OK") {
                    let tasks: Vec<ReportedTask> = Vec::new();
                    assert(reported_view(tasks@) =~= Seq::empty());
                    self.sum_up(token, answer, 0, tasks);
                    return;
                }
                false
            },
            Goal::Control { action, .. } => control_action_succeeded(&answer, action),
        };
        if succeeded {
            self.phase = Phase::Finished(Outcome::Acted);
        } else {
            self.fail(api_error(&answer));
        }
    }

    /// Tells the conversation the answer to what it asked, given what came of
    /// drawing the random bytes that it may need.
    pub fn receive_with(
        &mut self,
        cache: &mut TokenCache,
        reply: Result<Json, String>,
        drawn: &Result<Salts, String>,
    )
        requires
            old(self)@.wf(),
            is_drawn(*drawn),
        ensures
            (final(self)@, final(cache)@) == told(old(self)@, old(cache)@, reply, *drawn),
            final(self)@.wf(),
    {
        let mut phase = Phase::Verify;
        core::mem::swap(&mut phase, &mut self.phase);
        if let Phase::Finished(outcome) = phase {
            self.phase = Phase::Finished(outcome);
            return;
        }
        let answer = match reply {
            Ok(answer) => answer,
            Err(message) => {
                if let Phase::Verify = phase {
                    assert(self.config.ports.len() == self.config.ports@.len());
                    self.at += 1;
                    self.verify();
                } else {
                    self.fail(message);
                }
                return;
            },
        };
        match phase {
            Phase::Verify => {
                self.receive_verified(cache, &answer, drawn);
            },
            Phase::Login { .. } => {
                if answer.member_is("error_code", "OK") {
                    if let Some(invite) = answer.member_text("invite_token") {
                        self.phase = Phase::Device { invite };
                        return;
                    }
                }
                self.fail(api_error(&answer));
            },
            Phase::Device { .. } => match answer.member_text("device_token") {
                Some(token) => {
                    cache.insert(self.base(), token.clone());
                    self.phase = Phase::Ask { token };
                },
                None => {
                    self.fail(api_error(&answer));
                },
            },
            Phase::Ask { token } => {
                self.receive_answer(cache, token, answer, drawn);
            },
            Phase::Summary { token, list, at, tasks } => {
                let mut tasks = tasks;
                let ghost before = reported_view(tasks@);
                if let Some(task) = parse_webui_task(entry_of(&list, at), &answer) {
                    tasks.push(task);
                    assert(reported_view(tasks@) =~= before.push(task@));
                }
                self.sum_up(token, list, at + 1, tasks);
            },
            Phase::Finished(_) => {},
        }
    }

    fn draws(&self, cache: &TokenCache, reply: &Result<Json, String>) -> (r: bool)
        requires
            self@.wf(),
        ensures
            r == draws(self@, cache@, *reply),
    {
        let bypass = match (&self.phase, reply) {
            (Phase::Verify, Ok(answer)) => {
                if let Goal::Tasks = &self.goal {
                    if answer.member_is("error_code", "APP_ACCESS_DISABLED") {
                        return false;
                    }
                }
                if cache.get(&self.base()).is_some() {
                    return false;
                }
                answer.member_is_true("bypass_eligible")
            },
            (Phase::Ask { .. }, Ok(answer)) => {
                if self.renewed || !answer.member_is("error_code", "INVALID_TOKEN") {
                    return false;
                }
                self.bypass
            },
            _ => {
                return false;
            },
        };
        if bypass || self.config.username.as_str().is_empty() {
            return false;
        }
        let text = credentials(&self.config.username, &self.config.password);
        text.as_str().as_bytes().len() <= LONGEST_PLAINTEXT
    }

    /// Tells the conversation the answer to what it asked. Random bytes are
    /// drawn only where credentials are sealed; where the system has none, the
    /// conversation ends with what is wrong.
    pub fn receive(&mut self, cache: &mut TokenCache, reply: Result<Json, String>)
        requires
            old(self)@.wf(),
        ensures
            final(self)@.wf(),
            !draws(old(self)@, old(cache)@, reply) ==> forall|drawn: Result<Salts, String>|
                (final(self)@, final(cache)@) == #[trigger] told(
                    old(self)@,
                    old(cache)@,
                    reply,
                    drawn,
                ),
            exists|drawn: Result<Salts, String>| #[trigger]
                is_drawn(drawn) && (final(self)@, final(cache)@) == told(
                    old(self)@,
                    old(cache)@,
                    reply,
                    drawn,
                ),
    {
        let drawn = if self.draws(cache, &reply) {
            Salts::random()
        } else {
            // Nothing is sealed, so it makes no difference what stands here.
            Err(String::new())
        };
        assert(is_drawn(drawn));
        self.receive_with(cache, reply, &drawn);
    }

    /// What the conversation is for.
    pub fn goal(&self) -> (r: &Goal)
        ensures
            r@ == self@.goal,
    {
        &self.goal
    }

    /// Where the conversation stands.
    pub fn phase(&self) -> (r: &Phase)
        ensures
            r@ == self@.phase,
    {
        &self.phase
    }

    /// What came of the conversation, or the conversation itself where it is
    /// not finished.
    pub fn outcome(self) -> (r: Result<Outcome, Conversation>)
        ensures
            match self@.phase {
                PhaseView::Finished(outcome) => r matches Ok(reached) && reached@ == outcome,
                _ => r == Err::<Outcome, Conversation>(self),
            },
    {
        if let Phase::Finished(_) = &self.phase {
            if let Phase::Finished(outcome) = self.phase {
                return Ok(outcome);
            }
        }
        Err(self)
    }
}

/// How far a conversation is from its end: the steps that its phase leaves,
/// and what is left to count within the phase.
pub open spec fn way_left(talk: ConversationView) -> (nat, nat) {
    let late: nat = if talk.renewed {
        0
    } else {
        3
    };
    match talk.phase {
        PhaseView::Verify => (9, (talk.ports.len() - talk.at) as nat),
        PhaseView::Login { .. } => (late + 5, 0),
        PhaseView::Device { .. } => (late + 4, 0),
        PhaseView::Ask { .. } => (late + 3, 0),
        PhaseView::Summary { list, at, .. } => (2, (entries_of(list).len() - at) as nat),
        PhaseView::Finished(_) => (0, 0),
    }
}

/// A conversation keeps within its bounds, and each answer brings it closer
/// to its end: whatever is answered, it does not go on forever.
pub proof fn law_conversation_comes_to_an_end(
    talk: ConversationView,
    cache: Map<Seq<char>, Seq<char>>,
    reply: Result<Json, String>,
    drawn: Result<Salts, String>,
)
    requires
        talk.wf(),
        !(talk.phase is Finished),
    ensures
        ({
            let next = told(talk, cache, reply, drawn).0;
            let before = way_left(talk);
            let after = way_left(next);
            &&& next.wf()
            &&& after.0 < before.0 || (after.0 == before.0 && after.1 < before.1)
        }),
{
    match (talk.phase, reply) {
        (PhaseView::Ask { token }, Ok(answer)) => {
            lemma_next_entry(entries_of(answer), 0);
        },
        (PhaseView::Summary { list, at, .. }, Ok(answer)) => {
            lemma_next_entry(entries_of(list), at + 1);
        },
        _ => {},
    }
}

proof fn lemma_next_entry(entries: Seq<Json>, from: int)
    requires
        0 <= from <= entries.len(),
    ensures
        from <= next_entry(entries, from) <= entries.len(),
        next_entry(entries, from) < entries.len() ==> member_of(
            entries[next_entry(entries, from)],
            "task_id"@,
        ) is Some,
    decreases entries.len() - from,
{
    if from < entries.len() {
        lemma_next_entry(entries, from + 1);
    }
}

/// Every request goes to a port on this machine.
pub proof fn law_requests_stay_on_this_machine(talk: ConversationView)
    ensures
        request_of(talk) matches Some(request) ==> "http://127.0.0.1:"@.is_prefix_of(request.url),
{
    if let Some(request) = request_of(talk) {
        let address = "http://127.0.0.1:"@;
        assert(request.url.subrange(0, address.len() as int) =~= address);
    }
}

/// The token that a conversation comes to ask with is the one that is
/// remembered for its address.
pub proof fn law_token_in_use_is_remembered(
    talk: ConversationView,
    cache: Map<Seq<char>, Seq<char>>,
    reply: Result<Json, String>,
    drawn: Result<Salts, String>,
)
    requires
        talk.wf(),
    ensures
        ({
            let (next, kept) = told(talk, cache, reply, drawn);
            next.phase matches PhaseView::Ask { token } ==> kept.contains_key(next.base())
                && kept[next.base()] == token
        }),
{
}

/// A token that is refused for the first time is forgotten, and is not asked
/// with again; one that is refused for the second time ends the conversation.
#[verifier::spinoff_prover]
pub proof fn law_refused_token_is_given_up(
    talk: ConversationView,
    cache: Map<Seq<char>, Seq<char>>,
    answer: Json,
    drawn: Result<Salts, String>,
)
    requires
        talk.wf(),
        talk.phase is Ask,
        text_in(member_of(answer, "error_code"@)) == Some("INVALID_TOKEN"@),
    ensures
        ({
            let (next, kept) = told(talk, cache, Ok(answer), drawn);
            &&& !talk.renewed ==> next.renewed && !kept.contains_key(talk.base()) && !(
            next.phase is Ask)
            &&& talk.renewed ==> next.phase is Finished
        }),
{
    assert("INVALID_TOKEN"@ != "OK"@) by {
        reveal_strlit("INVALID_TOKEN");
        reveal_strlit("OK");
        assert("INVALID_TOKEN"@.len() == 13);
        assert("OK"@.len() == 2);
    }
    if talk.renewed {
        assert(told(talk, cache, Ok(answer), drawn) == answered(
            talk,
            talk.phase->Ask_token,
            answer,
            cache,
            drawn,
        ));
    }
}

} // verus!
