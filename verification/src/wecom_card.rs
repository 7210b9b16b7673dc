//! WeCom smart-bot template card panel: panel commands, the five-action
//! allowlist, the in-memory card state store (30-minute TTL, event dedup,
//! single-flight monitor with countdown and delivery state) and the card
//! event normalizer.
use vstd::prelude::*;
use crate::text::{
    ascii_lower_seq, ascii_lower_vec, chars_eq_str, owned, push_str, trim_seq, trimmed_chars,
};
use crate::fmt::{dec, idec, push_dec, push_idec};
use crate::assoc::AssocMap;
use crate::clock::{instant_now, millis_since, unix_now_secs};

verus! {

/// Panel card title.
pub const PANEL_TITLE: &'static str = "OmniNova · 控制中心";

/// Panel card description.
pub const PANEL_DESC: &'static str = "企业微信长连接 · Online";

/// Subtitle of a panel that waits for a choice.
pub const PANEL_READY_SUBTITLE: &'static str = "请选择操作";

/// Answer to a click on an expired panel.
pub const PANEL_EXPIRED_TEXT: &'static str = "该操作面板已过期，请重新打开。";

/// Answer to a click on an unknown action.
pub const UNKNOWN_ACTION_TEXT: &'static str = "未知操作，已忽略。";

/// Panel lifetime since its last update, in seconds.
pub const CARD_TTL_SECS: i64 = 1800;

/// How many recent jobs the recent-jobs card shows.
pub const RECENT_JOBS_LIMIT: usize = 5;

/// How many recent jobs the store keeps.
pub const RECENT_JOBS_KEPT: usize = 20;

/// Hard timeout grace added on top of the monitor's soft duration.
pub const MONITOR_GRACE_SECS: u64 = 15;

/// The panel command that `text` is, if it is one: trimmed and ASCII
/// lower-cased, it must equal one of 菜单 / 面板 / menu / /menu / panel / /panel.
pub open spec fn panel_command_spec(text: Seq<char>) -> Option<Seq<char>> {
    let n = ascii_lower_seq(trim_seq(text));
    if n == "菜单"@ || n == "面板"@ || n == "menu"@ || n == "/menu"@ || n == "panel"@ || n
        == "/panel"@ {
        Some(n)
    } else {
        None
    }
}

/// Normalized panel command detector: the canonical command when `text`,
/// trimmed and ASCII lower-cased, is exactly one of the panel commands.
pub fn panel_command(text: &str) -> (r: Option<&'static str>)
    ensures
        r matches Some(c) ==> panel_command_spec(text@) == Some(c@),
        r is None ==> panel_command_spec(text@) is None,
{
    let t = trimmed_chars(text);
    let n = ascii_lower_vec(t.as_slice());
    if chars_eq_str(n.as_slice(), "菜单") {
        Some("菜单")
    } else if chars_eq_str(n.as_slice(), "面板") {
        Some("面板")
    } else if chars_eq_str(n.as_slice(), "menu") {
        Some("menu")
    } else if chars_eq_str(n.as_slice(), "/menu") {
        Some("/menu")
    } else if chars_eq_str(n.as_slice(), "panel") {
        Some("panel")
    } else if chars_eq_str(n.as_slice(), "/panel") {
        Some("/panel")
    } else {
        None
    }
}

/// Law: surrounding whitespace never changes whether a text is a panel
/// command, nor which one.
pub proof fn lemma_panel_command_ignores_surrounding_space(text: Seq<char>)
    ensures
        panel_command_spec(trim_seq(text)) == panel_command_spec(text),
{
    crate::text::lemma_trim_idempotent(text);
}

/// Whether `text` is exactly a panel command (never a mere substring match).
pub fn is_panel_command(text: &str) -> (r: bool)
    ensures
        r == panel_command_spec(text@) is Some,
{
    panel_command(text).is_some()
}

/// The five panel actions: the whole allowlist.
#[derive(Debug, Clone, Copy, PartialEq, Eq)]
pub enum WecomPanelAction {
    GatewayStatus,
    RecentJobs,
    Monitor30,
    Monitor60,
    Help,
}

/// The event key of an action.
pub open spec fn action_key(a: WecomPanelAction) -> Seq<char> {
    match a {
        WecomPanelAction::GatewayStatus => "gateway_status"@,
        WecomPanelAction::RecentJobs => "recent_jobs"@,
        WecomPanelAction::Monitor30 => "monitor_30"@,
        WecomPanelAction::Monitor60 => "monitor_60"@,
        WecomPanelAction::Help => "help"@,
    }
}

/// The button label of an action.
pub open spec fn action_label(a: WecomPanelAction) -> Seq<char> {
    match a {
        WecomPanelAction::GatewayStatus => "网关状态"@,
        WecomPanelAction::RecentJobs => "最近任务"@,
        WecomPanelAction::Monitor30 => "监控 30 秒"@,
        WecomPanelAction::Monitor60 => "监控 60 秒"@,
        WecomPanelAction::Help => "帮助"@,
    }
}

/// The action whose key is exactly `key`, if any.
pub open spec fn action_from_key(key: Seq<char>) -> Option<WecomPanelAction> {
    if key == "gateway_status"@ {
        Some(WecomPanelAction::GatewayStatus)
    } else if key == "recent_jobs"@ {
        Some(WecomPanelAction::RecentJobs)
    } else if key == "monitor_30"@ {
        Some(WecomPanelAction::Monitor30)
    } else if key == "monitor_60"@ {
        Some(WecomPanelAction::Monitor60)
    } else if key == "help"@ {
        Some(WecomPanelAction::Help)
    } else {
        None
    }
}

impl WecomPanelAction {
    /// The action's event key.
    pub fn key(self) -> (r: &'static str)
        ensures
            r@ == action_key(self),
    {
        match self {
            WecomPanelAction::GatewayStatus => "gateway_status",
            WecomPanelAction::RecentJobs => "recent_jobs",
            WecomPanelAction::Monitor30 => "monitor_30",
            WecomPanelAction::Monitor60 => "monitor_60",
            WecomPanelAction::Help => "help",
        }
    }

    /// Allowlist-only canonicalization: any key outside the five is `None`.
    pub fn from_event_key(key: &str) -> (r: Option<WecomPanelAction>)
        ensures
            r == action_from_key(key@),
    {
        let k = crate::text::chars_of(key);
        if chars_eq_str(k.as_slice(), "gateway_status") {
            Some(WecomPanelAction::GatewayStatus)
        } else if chars_eq_str(k.as_slice(), "recent_jobs") {
            Some(WecomPanelAction::RecentJobs)
        } else if chars_eq_str(k.as_slice(), "monitor_30") {
            Some(WecomPanelAction::Monitor30)
        } else if chars_eq_str(k.as_slice(), "monitor_60") {
            Some(WecomPanelAction::Monitor60)
        } else if chars_eq_str(k.as_slice(), "help") {
            Some(WecomPanelAction::Help)
        } else {
            None
        }
    }

    /// The action's button label.
    pub fn label(self) -> (r: &'static str)
        ensures
            r@ == action_label(self),
    {
        match self {
            WecomPanelAction::GatewayStatus => "网关状态",
            WecomPanelAction::RecentJobs => "最近任务",
            WecomPanelAction::Monitor30 => "监控 30 秒",
            WecomPanelAction::Monitor60 => "监控 60 秒",
            WecomPanelAction::Help => "帮助",
        }
    }
}

/// Every action is found again from its own key, and the keys of different
/// actions differ: the allowlist and the keys are one-to-one.
pub proof fn lemma_action_key_roundtrip(a: WecomPanelAction, b: WecomPanelAction)
    ensures
        action_from_key(action_key(a)) == Some(a),
        a != b ==> action_key(a) != action_key(b),
{
    reveal_strlit("gateway_status");
    reveal_strlit("recent_jobs");
    reveal_strlit("monitor_30");
    reveal_strlit("monitor_60");
    reveal_strlit("help");
    assert("monitor_30"@[8] != "monitor_60"@[8]);
    assert(action_key(WecomPanelAction::Monitor30) != action_key(WecomPanelAction::Monitor60));
    assert(action_key(a).len() == 14 ==> a == WecomPanelAction::GatewayStatus);
    assert(action_key(a).len() == 11 ==> a == WecomPanelAction::RecentJobs);
    assert(action_key(a).len() == 4 ==> a == WecomPanelAction::Help);
    match a {
        WecomPanelAction::GatewayStatus => {},
        WecomPanelAction::RecentJobs => {},
        WecomPanelAction::Monitor30 => {},
        WecomPanelAction::Monitor60 => {
            assert(action_key(a) != "monitor_30"@);
        },
        WecomPanelAction::Help => {},
    }
}

/// The fixed help text: the panel commands and the five actions.
pub open spec fn wecom_help_spec() -> Seq<char> {
    "OmniNova 使用帮助\n\n菜单命令：菜单 / 面板 / menu / /menu / panel / /panel\n\n操作说明：\n· 网关状态：查看 Gateway 与 WeCom 连接状态\n· 最近任务：最近 5 条处理记录\n· 监控 30 秒：桌面监控 30 秒，完成后自动推送结果\n· 监控 60 秒：桌面监控 60 秒，完成后自动推送结果\n· 帮助：显示本说明\n\n普通聊天直接发消息即可。"@
}

/// Fixed help text: the panel commands and the five actions.
pub fn help_text() -> (r: &'static str)
    ensures
        r@ == wecom_help_spec(),
{
    "OmniNova 使用帮助\n\n菜单命令：菜单 / 面板 / menu / /menu / panel / /panel\n\n操作说明：\n· 网关状态：查看 Gateway 与 WeCom 连接状态\n· 最近任务：最近 5 条处理记录\n· 监控 30 秒：桌面监控 30 秒，完成后自动推送结果\n· 监控 60 秒：桌面监控 60 秒，完成后自动推送结果\n· 帮助：显示本说明\n\n普通聊天直接发消息即可。"
}

/// The panel's buttons, in order: all five actions.
pub open spec fn panel_buttons_spec() -> Seq<WecomPanelAction> {
    seq![
        WecomPanelAction::GatewayStatus,
        WecomPanelAction::RecentJobs,
        WecomPanelAction::Monitor30,
        WecomPanelAction::Monitor60,
        WecomPanelAction::Help,
    ]
}

/// The panel's buttons, in order.
pub fn panel_buttons() -> (r: Vec<WecomPanelAction>)
    ensures
        r@ == panel_buttons_spec(),
{
    let mut r: Vec<WecomPanelAction> = Vec::new();
    r.push(WecomPanelAction::GatewayStatus);
    r.push(WecomPanelAction::RecentJobs);
    r.push(WecomPanelAction::Monitor30);
    r.push(WecomPanelAction::Monitor60);
    r.push(WecomPanelAction::Help);
    assert(r@ =~= panel_buttons_spec());
    r
}

/// Law: the panel offers every action of the allowlist exactly once, so a
/// click on any of its buttons is a known action.
pub proof fn lemma_panel_buttons_cover_allowlist(a: WecomPanelAction)
    ensures
        panel_buttons_spec().contains(a),
        forall|i: int, j: int|
            0 <= i < j < panel_buttons_spec().len() ==> panel_buttons_spec()[i]
                != panel_buttons_spec()[j],
        forall|i: int|
            0 <= i < panel_buttons_spec().len() ==> action_from_key(
                action_key(#[trigger] panel_buttons_spec()[i]),
            ) == Some(panel_buttons_spec()[i]),
{
    let s = panel_buttons_spec();
    match a {
        WecomPanelAction::GatewayStatus => assert(s[0] == a),
        WecomPanelAction::RecentJobs => assert(s[1] == a),
        WecomPanelAction::Monitor30 => assert(s[2] == a),
        WecomPanelAction::Monitor60 => assert(s[3] == a),
        WecomPanelAction::Help => assert(s[4] == a),
    }
    assert forall|i: int| 0 <= i < s.len() implies action_from_key(action_key(#[trigger] s[i]))
        == Some(s[i]) by {
        lemma_action_key_roundtrip(s[i], s[i]);
    }
}

/// A WeCom `button_interaction` template card for the control panel: its
/// task id, its subtitle and its buttons. The title, description and
/// source are fixed.
pub struct PanelCard {
    pub task_id: String,
    pub sub_title_text: String,
    pub buttons: Vec<WecomPanelAction>,
}

impl PanelCard {
    /// The card type: "button_interaction".
    pub fn card_type(&self) -> (r: &'static str)
        ensures
            r@ == "button_interaction"@,
    {
        "button_interaction"
    }

    /// The main title.
    pub fn title(&self) -> (r: &'static str)
        ensures
            r@ == PANEL_TITLE@,
    {
        PANEL_TITLE
    }

    /// The main title's description.
    pub fn desc(&self) -> (r: &'static str)
        ensures
            r@ == PANEL_DESC@,
    {
        PANEL_DESC
    }

    /// The source line shown above the title.
    pub fn source_desc(&self) -> (r: &'static str)
        ensures
            r@ == "OmniNova"@,
    {
        "OmniNova"
    }
}

/// The control panel card for `task_id`, waiting for a choice: the ready
/// subtitle and the five buttons.
pub fn build_panel_card(task_id: &str) -> (r: PanelCard)
    ensures
        r.task_id@ == task_id@,
        r.sub_title_text@ == PANEL_READY_SUBTITLE@,
        r.buttons@ == panel_buttons_spec(),
{
    PanelCard {
        task_id: owned(task_id),
        sub_title_text: owned(PANEL_READY_SUBTITLE),
        buttons: panel_buttons(),
    }
}

/// The control panel card for `task_id` showing an action's result in
/// place of the subtitle; the buttons stay.
pub fn build_panel_card_with_text(task_id: &str, text: &str) -> (r: PanelCard)
    ensures
        r.task_id@ == task_id@,
        r.sub_title_text@ == text@,
        r.buttons@ == panel_buttons_spec(),
{
    let mut card = build_panel_card(task_id);
    card.sub_title_text = owned(text);
    card
}

} // verus!

verus! {

/// Delivery outcome of a completed monitor's proactive result: only an ACK
/// with errcode 0 marks it `Sent`.
#[derive(Debug, Clone, Copy, PartialEq, Eq)]
pub enum MonitorDelivery {
    Pending,
    Sent,
    Failed { errcode: i64 },
}

/// Per-panel monitor state. `Running.deadline` is a time on the store's
/// monotonic clock (milliseconds); remaining seconds are always recomputed as
/// `deadline - now`, never counted down.
#[derive(Debug, Clone, PartialEq, Eq)]
pub enum MonitorState {
    Idle,
    Running { duration_secs: u64, started_at: i64, deadline: u64, generation: u64 },
    Completed {
        duration_secs: u64,
        elapsed_ms: u64,
        summary: String,
        completed_at: i64,
        delivery: MonitorDelivery,
    },
    Failed { error_summary: String, elapsed_ms: u64 },
}

/// The phase name of a monitor state.
pub open spec fn phase_spec(s: MonitorState) -> Seq<char> {
    match s {
        MonitorState::Idle => "idle"@,
        MonitorState::Running { .. } => "running"@,
        MonitorState::Completed { .. } => "completed"@,
        MonitorState::Failed { .. } => "failed"@,
    }
}

impl MonitorState {
    /// The phase name: idle, running, completed or failed.
    pub fn phase(&self) -> (r: &'static str)
        ensures
            r@ == phase_spec(*self),
    {
        match self {
            MonitorState::Idle => "idle",
            MonitorState::Running { .. } => "running",
            MonitorState::Completed { .. } => "completed",
            MonitorState::Failed { .. } => "failed",
        }
    }

    /// An equal copy.
    pub fn duplicate(&self) -> (r: Self)
        ensures
            r == *self,
    {
        match self {
            MonitorState::Idle => MonitorState::Idle,
            MonitorState::Running { duration_secs, started_at, deadline, generation } => {
                MonitorState::Running {
                    duration_secs: *duration_secs,
                    started_at: *started_at,
                    deadline: *deadline,
                    generation: *generation,
                }
            },
            MonitorState::Completed {
                duration_secs,
                elapsed_ms,
                summary,
                completed_at,
                delivery,
            } => MonitorState::Completed {
                duration_secs: *duration_secs,
                elapsed_ms: *elapsed_ms,
                summary: summary.clone(),
                completed_at: *completed_at,
                delivery: *delivery,
            },
            MonitorState::Failed { error_summary, elapsed_ms } => MonitorState::Failed {
                error_summary: error_summary.clone(),
                elapsed_ms: *elapsed_ms,
            },
        }
    }
}

impl Default for MonitorState {
    fn default() -> (r: Self)
        ensures
            r == MonitorState::Idle,
    {
        MonitorState::Idle
    }
}

/// Whole seconds from `now` until `deadline` (milliseconds), or 0 once passed.
pub open spec fn remaining_secs_spec(deadline: u64, now: u64) -> u64 {
    if deadline > now {
        ((deadline - now) / 1000) as u64
    } else {
        0
    }
}

/// Monotonic remaining seconds: `deadline - now`, at least 0.
pub fn remaining_secs_until(deadline: u64, now: u64) -> (r: u64)
    ensures
        r == remaining_secs_spec(deadline, now),
{
    if deadline > now {
        (deadline - now) / 1000
    } else {
        0
    }
}

/// The panel subtitle for a monitor state, at monotonic time `now`.
pub open spec fn subtitle_spec(s: MonitorState, now: u64) -> Seq<char> {
    match s {
        MonitorState::Idle => "请选择操作"@,
        MonitorState::Running { deadline, .. } => "桌面监控中 · 剩余 "@ + dec(
            remaining_secs_spec(deadline, now) as nat,
        ) + " 秒"@,
        MonitorState::Completed { .. } => "桌面监控完成"@,
        MonitorState::Failed { .. } => "桌面监控失败"@,
    }
}

/// Menu subtitle driven by the panel's monitor state.
pub fn panel_subtitle_for_state(state: &MonitorState, now: u64) -> (r: String)
    ensures
        r@ == subtitle_spec(*state, now),
{
    match state {
        MonitorState::Idle => owned(PANEL_READY_SUBTITLE),
        MonitorState::Running { deadline, .. } => {
            let remaining = remaining_secs_until(*deadline, now);
            let mut s = owned("桌面监控中 · 剩余 ");
            push_dec(&mut s, remaining);
            push_str(&mut s, " 秒");
            s
        },
        MonitorState::Completed { .. } => owned("桌面监控完成"),
        MonitorState::Failed { .. } => owned("桌面监控失败"),
    }
}

/// The Markdown of a finished monitor's result, given the elapsed seconds
/// already written with one decimal.
pub open spec fn monitor_markdown_spec(
    kind: Seq<char>,
    duration_secs: u64,
    elapsed_secs_text: Seq<char>,
    summary: Seq<char>,
) -> Seq<char> {
    if kind == "completed"@ {
        "### OmniNova · 桌面监控完成\n\n**状态：** 完成\n**监控时长：** "@ + dec(duration_secs as nat)
            + " 秒\n**实际耗时：** "@ + elapsed_secs_text + " 秒\n\n**检测结果**\n"@ + summary
    } else if kind == "timeout"@ {
        "### OmniNova · 桌面监控超时\n\n**状态：** 超时\n**监控时长：** "@ + dec(duration_secs as nat)
            + " 秒"@
    } else {
        "### OmniNova · 桌面监控失败\n\n**状态：** 失败\n**原因：** "@ + summary
    }
}

/// The Markdown content of a monitor's final result: completed, timeout, or
/// (any other kind) failed. It holds only the given texts and numbers.
pub fn monitor_result_markdown(
    kind: &str,
    duration_secs: u64,
    elapsed_secs_text: &str,
    summary: &str,
) -> (r: String)
    ensures
        r@ == monitor_markdown_spec(kind@, duration_secs, elapsed_secs_text@, summary@),
{
    let k = crate::text::chars_of(kind);
    if chars_eq_str(k.as_slice(), "completed") {
        let mut s = owned("### OmniNova · 桌面监控完成\n\n**状态：** 完成\n**监控时长：** ");
        push_dec(&mut s, duration_secs);
        push_str(&mut s, " 秒\n**实际耗时：** ");
        push_str(&mut s, elapsed_secs_text);
        push_str(&mut s, " 秒\n\n**检测结果**\n");
        push_str(&mut s, summary);
        s
    } else if chars_eq_str(k.as_slice(), "timeout") {
        let mut s = owned("### OmniNova · 桌面监控超时\n\n**状态：** 超时\n**监控时长：** ");
        push_dec(&mut s, duration_secs);
        push_str(&mut s, " 秒");
        s
    } else {
        let mut s = owned("### OmniNova · 桌面监控失败\n\n**状态：** 失败\n**原因：** ");
        push_str(&mut s, summary);
        s
    }
}

/// Kinds of outbound card/proactive req_ids awaiting ACK.
#[derive(Debug, Clone, Copy, PartialEq, Eq)]
pub enum WecomCardReqKind {
    InitialCard,
    UpdateCard,
    Proactive,
}

/// One registered panel.
#[derive(Debug, Clone)]
pub struct WecomCardState {
    pub task_id: String,
    pub session_key: Option<String>,
    pub created_at: i64,
    pub updated_at: i64,
    pub last_action: Option<String>,
    pub monitor: MonitorState,
}

/// An equal copy of an optional string.
pub fn dup_opt_string(s: &Option<String>) -> (r: Option<String>)
    ensures
        r == *s,
{
    match s {
        Some(v) => Some(v.clone()),
        None => None,
    }
}

impl WecomCardState {
    /// An equal copy.
    pub fn duplicate(&self) -> (r: Self)
        ensures
            r == *self,
    {
        WecomCardState {
            task_id: self.task_id.clone(),
            session_key: dup_opt_string(&self.session_key),
            created_at: self.created_at,
            updated_at: self.updated_at,
            last_action: dup_opt_string(&self.last_action),
            monitor: self.monitor.duplicate(),
        }
    }
}

/// One entry of the WeCom recent-jobs log (redacted summary only).
#[derive(Debug, Clone)]
pub struct WecomRecentJob {
    pub chat_type: String,
    pub status: String,
    pub created_at: i64,
}

/// A pending outbound req awaiting its ACK.
#[derive(Debug, Clone, PartialEq, Eq)]
pub struct WecomCardPendingReq {
    pub kind: WecomCardReqKind,
    pub task_id: Option<String>,
}

} // verus!

verus! {

/// The panel map after an update of `task`'s panel at `now` (no change when
/// there is no such panel).
pub open spec fn touch_spec(
    cards: Map<Seq<char>, WecomCardState>,
    task: Seq<char>,
    now: i64,
) -> Map<Seq<char>, WecomCardState> {
    if cards.dom().contains(task) {
        cards.insert(task, WecomCardState { updated_at: now, ..cards[task] })
    } else {
        cards
    }
}

/// The event ids seen for `task`.
pub open spec fn seen_for(seen: Map<Seq<char>, Seq<Seq<char>>>, task: Seq<char>) -> Seq<Seq<char>> {
    if seen.dom().contains(task) {
        seen[task]
    } else {
        seq![]
    }
}

/// Event retry dedup: whether `event` is new for `task`, and the seen events after.
pub open spec fn dedup_spec(
    seen: Map<Seq<char>, Seq<Seq<char>>>,
    task: Seq<char>,
    event: Seq<char>,
) -> (bool, Map<Seq<char>, Seq<Seq<char>>>) {
    let s = seen_for(seen, task);
    if s.contains(event) {
        (false, seen.insert(task, s))
    } else {
        (true, seen.insert(task, s.push(event)))
    }
}

/// The monitor of `task` (idle when none was recorded).
pub open spec fn monitor_of(m: Map<Seq<char>, MonitorState>, task: Seq<char>) -> MonitorState {
    if m.dom().contains(task) {
        m[task]
    } else {
        MonitorState::Idle
    }
}

/// Whether the monitor of `task` is running.
pub open spec fn is_running(m: Map<Seq<char>, MonitorState>, task: Seq<char>) -> bool {
    monitor_of(m, task) is Running
}

/// The views of a list of strings.
pub open spec fn events_view(v: Vec<String>) -> Seq<Seq<char>> {
    crate::text::strings_view(v@)
}

/// The recent-jobs log after recording `job`: newest first, at most 20 kept.
pub open spec fn record_spec(jobs: Seq<WecomRecentJob>, job: WecomRecentJob) -> Seq<WecomRecentJob> {
    let all = seq![job] + jobs;
    if all.len() > RECENT_JOBS_KEPT {
        all.take(RECENT_JOBS_KEPT as int)
    } else {
        all
    }
}

/// One line of the recent-jobs card, numbered from 1.
pub open spec fn job_line(index: nat, job: WecomRecentJob) -> Seq<char> {
    dec(index + 1) + ". "@ + job.chat_type@ + " | "@ + job.status@ + " | Unix "@ + idec(
        job.created_at as int,
    )
}

/// The lines of the first `k` jobs, each after a line break.
pub open spec fn job_lines(jobs: Seq<WecomRecentJob>, k: nat) -> Seq<char>
    decreases k,
{
    if k == 0 {
        seq![]
    } else {
        job_lines(jobs, (k - 1) as nat) + "\n"@ + job_line((k - 1) as nat, jobs[k - 1])
    }
}

/// The recent-jobs card text: the last five jobs, or a note that there are none.
pub open spec fn recent_jobs_text_spec(jobs: Seq<WecomRecentJob>) -> Seq<char> {
    let n: nat = if jobs.len() > RECENT_JOBS_LIMIT {
        RECENT_JOBS_LIMIT as nat
    } else {
        jobs.len()
    };
    if n == 0 {
        "最近任务\n\n暂无最近任务。"@
    } else {
        "最近任务（"@ + dec(n) + " 条）\n"@ + job_lines(jobs, n)
    }
}

/// In-memory card state store: panels with a 30-minute TTL, per-task event
/// dedup, monitor states, pending ACK req_ids and a bounded recent-jobs log.
pub struct WecomCardStore {
    pub cards: AssocMap<String, WecomCardState>,
    /// Event msgids already handled per task (retry dedup).
    pub seen_events: AssocMap<String, Vec<String>>,
    /// Monitor state per task_id (single-flight + countdown).
    pub monitors: AssocMap<String, MonitorState>,
    /// req_ids of card/proactive messages awaiting their ACK.
    pub pending_card_req_ids: AssocMap<String, WecomCardPendingReq>,
    /// Bounded recent-jobs log (most recent first).
    pub recent_jobs: Vec<WecomRecentJob>,
    /// The instant the store's monotonic clock counts from.
    pub origin: std::time::Instant,
}

/// Whether store `f` is store `o` with a monitor of `duration_secs` started on
/// `task` at Unix time `now` and monotonic time `now_ms`: the task's monitor
/// is running, due `duration_secs` after `now_ms`, and its panel shows `now`
/// as its update time; the other tasks' monitors and panels are kept.
pub open spec fn monitor_started(
    o: WecomCardStore,
    f: WecomCardStore,
    task: Seq<char>,
    duration_secs: u64,
    generation: u64,
    now: i64,
    now_ms: u64,
) -> bool {
    &&& f.monitors_map() == o.monitors_map().insert(
        task,
        MonitorState::Running {
            duration_secs,
            started_at: now,
            deadline: deadline_after(now_ms, duration_secs),
            generation,
        },
    )
    &&& f.cards_map() == touch_spec(o.cards_map(), task, now)
}

/// Whether store `f` is store `o` after the panel action `a` on `task` at
/// Unix time `now` and monotonic time `now_ms`: the panel (when present)
/// records the action and `now`; the task's monitor starts when `started`
/// (a monitor action that found none running), else the monitors stay;
/// seen events, pending ACKs and recent jobs stay.
pub open spec fn acted_on(
    o: WecomCardStore,
    f: WecomCardStore,
    task: Seq<char>,
    a: WecomPanelAction,
    generation: u64,
    now: i64,
    now_ms: u64,
    started: bool,
) -> bool {
    &&& o.cards_map().dom().contains(task) ==> f.cards_map() == o.cards_map().insert(
        task,
        WecomCardState {
            last_action: f.cards_map()[task].last_action,
            updated_at: now,
            ..o.cards_map()[task]
        },
    )
    &&& o.cards_map().dom().contains(task) ==> (f.cards_map()[task].last_action matches Some(x)
        && x@ == action_key(a))
    &&& !o.cards_map().dom().contains(task) ==> f.cards_map() == o.cards_map()
    &&& f.monitors_map() == (if started {
        o.monitors_map().insert(
            task,
            MonitorState::Running {
                duration_secs: action_duration(a)->0,
                started_at: now,
                deadline: deadline_after(now_ms, action_duration(a)->0),
                generation,
            },
        )
    } else {
        o.monitors_map()
    })
    &&& f.seen_map() == o.seen_map()
    &&& f.pending_map() == o.pending_map()
    &&& f.recent_jobs == o.recent_jobs
}

/// Whether store `f` is store `o` after a card event on panel `task` with
/// event key `key`, event id `msgid` and reply id `req_id`: an expired or
/// missing panel is treated as `lookup_valid_at` treats it; on a live panel
/// the event is remembered; a repeated event or an unknown action changes
/// nothing more; an allowed action is carried out (starting the monitor when
/// `started`) and its update is tracked under `req_id`.
pub open spec fn card_event_store(
    o: WecomCardStore,
    f: WecomCardStore,
    task: Seq<char>,
    key: Seq<char>,
    msgid: Seq<char>,
    req_id: Seq<char>,
    generation: u64,
    now: i64,
    now_ms: u64,
    started: bool,
) -> bool {
    let cards = o.cards_map();
    if !cards.dom().contains(task) || now - cards[task].updated_at > CARD_TTL_SECS {
        lookup_outcome(o, task, now, None, f)
    } else {
        let d = dedup_spec(o.seen_map(), task, msgid);
        if !d.0 || action_from_key(key) is None {
            &&& f.seen_map() == d.1
            &&& f.cards_map() == o.cards_map()
            &&& f.monitors_map() == o.monitors_map()
            &&& f.pending_map() == o.pending_map()
            &&& f.recent_jobs == o.recent_jobs
        } else {
            let a = action_from_key(key)->0;
            &&& f.seen_map() == d.1
            &&& f.cards_map() == o.cards_map().insert(
                task,
                WecomCardState {
                    last_action: f.cards_map()[task].last_action,
                    updated_at: now,
                    ..cards[task]
                },
            )
            &&& (f.cards_map()[task].last_action matches Some(x) && x@ == action_key(a))
            &&& f.monitors_map() == (if started {
                o.monitors_map().insert(
                    task,
                    MonitorState::Running {
                        duration_secs: action_duration(a)->0,
                        started_at: now,
                        deadline: deadline_after(now_ms, action_duration(a)->0),
                        generation,
                    },
                )
            } else {
                o.monitors_map()
            })
            &&& f.pending_map().dom() == o.pending_map().dom().insert(req_id)
            &&& f.pending_map()[req_id].kind == WecomCardReqKind::UpdateCard
            &&& forall|k: Seq<char>|
                k != req_id && o.pending_map().dom().contains(k) ==> f.pending_map()[k]
                    == o.pending_map()[k]
            &&& f.recent_jobs == o.recent_jobs
        }
    }
}

/// Whether an event step started a monitor.
pub open spec fn step_started(r: CardEventStep) -> bool {
    match r {
        CardEventStep::Update { monitor_started, .. } => monitor_started,
        _ => false,
    }
}

/// What looking up the panel `task` at `now` does to store `o`, giving `r`
/// and leaving `f`: a missing panel is reported missing; one not updated for
/// more than the TTL is removed with its seen events and monitor and
/// reported missing; a live one is returned; nothing else changes.
pub open spec fn lookup_outcome(
    o: WecomCardStore,
    task: Seq<char>,
    now: i64,
    r: Option<WecomCardState>,
    f: WecomCardStore,
) -> bool {
    &&& !o.cards_map().dom().contains(task) ==> {
        &&& r is None
        &&& f.cards_map() == o.cards_map()
        &&& f.seen_map() == o.seen_map()
        &&& f.monitors_map() == o.monitors_map()
    }
    &&& o.cards_map().dom().contains(task) && now - o.cards_map()[task].updated_at > CARD_TTL_SECS ==> {
        &&& r is None
        &&& f.cards_map() == o.cards_map().remove(task)
        &&& f.seen_map() == o.seen_map().remove(task)
        &&& f.monitors_map() == o.monitors_map().remove(task)
    }
    &&& o.cards_map().dom().contains(task) && now - o.cards_map()[task].updated_at <= CARD_TTL_SECS ==> {
        &&& r == Some(o.cards_map()[task])
        &&& f.cards_map() == o.cards_map()
        &&& f.seen_map() == o.seen_map()
        &&& f.monitors_map() == o.monitors_map()
    }
    &&& f.pending_map() == o.pending_map()
    &&& f.recent_jobs == o.recent_jobs
}

/// What recording `action` on panel `task` at `now` does to store `o`,
/// leaving `f`: a present panel gets the action as its last one and `now` as
/// its update time, its other fields kept; nothing else changes.
pub open spec fn touch_outcome(
    o: WecomCardStore,
    task: Seq<char>,
    action: Seq<char>,
    now: i64,
    f: WecomCardStore,
) -> bool {
    &&& o.cards_map().dom().contains(task) ==> f.cards_map() == o.cards_map().insert(
        task,
        WecomCardState {
            last_action: f.cards_map()[task].last_action,
            updated_at: now,
            ..o.cards_map()[task]
        },
    )
    &&& o.cards_map().dom().contains(task) ==> (f.cards_map()[task].last_action matches Some(a)
        && a@ == action)
    &&& !o.cards_map().dom().contains(task) ==> f.cards_map() == o.cards_map()
    &&& f.seen_map() == o.seen_map()
    &&& f.monitors_map() == o.monitors_map()
    &&& f.pending_map() == o.pending_map()
    &&& f.recent_jobs == o.recent_jobs
}

impl WecomCardStore {
    /// Panels by task_id.
    pub open spec fn cards_map(&self) -> Map<Seq<char>, WecomCardState> {
        self.cards.view_map()
    }

    /// Seen event ids by task_id.
    pub open spec fn seen_map(&self) -> Map<Seq<char>, Seq<Seq<char>>> {
        self.seen_events.view_map().map_values(|v: Vec<String>| events_view(v))
    }

    /// Monitor states by task_id.
    pub open spec fn monitors_map(&self) -> Map<Seq<char>, MonitorState> {
        self.monitors.view_map()
    }

    /// Pending ACKs by req_id.
    pub open spec fn pending_map(&self) -> Map<Seq<char>, WecomCardPendingReq> {
        self.pending_card_req_ids.view_map()
    }

    /// The store is well formed.
    pub open spec fn wf(&self) -> bool {
        &&& self.cards.wf()
        &&& self.seen_events.wf()
        &&& self.monitors.wf()
        &&& self.pending_card_req_ids.wf()
        &&& self.recent_jobs@.len() <= RECENT_JOBS_KEPT
    }

    /// An empty store.
    pub fn new() -> (r: Self)
        ensures
            r.wf(),
            r.cards_map() == Map::<Seq<char>, WecomCardState>::empty(),
            r.seen_map() == Map::<Seq<char>, Seq<Seq<char>>>::empty(),
            r.monitors_map() == Map::<Seq<char>, MonitorState>::empty(),
            r.pending_map() == Map::<Seq<char>, WecomCardPendingReq>::empty(),
            r.recent_jobs@.len() == 0,
    {
        let r = WecomCardStore {
            cards: AssocMap::new(),
            seen_events: AssocMap::new(),
            monitors: AssocMap::new(),
            pending_card_req_ids: AssocMap::new(),
            recent_jobs: Vec::new(),
            origin: instant_now(),
        };
        assert(r.seen_map() =~= Map::<Seq<char>, Seq<Seq<char>>>::empty());
        r
    }

    /// The store's monotonic time, in milliseconds.
    pub fn monotonic_now(&self) -> u64 {
        millis_since(&self.origin)
    }

    /// Registers a fresh panel created at `created_at` (Unix seconds).
    pub fn register_at(&mut self, task_id: String, session_key: Option<String>, created_at: i64)
        requires
            old(self).wf(),
        ensures
            final(self).wf(),
            final(self).cards_map() == old(self).cards_map().insert(
                task_id@,
                WecomCardState {
                    task_id,
                    session_key,
                    created_at,
                    updated_at: created_at,
                    last_action: None,
                    monitor: MonitorState::Idle,
                },
            ),
            final(self).seen_map() == old(self).seen_map(),
            final(self).monitors_map() == old(self).monitors_map(),
            final(self).pending_map() == old(self).pending_map(),
            final(self).recent_jobs == old(self).recent_jobs,
    {
        let key = task_id.clone();
        let state = WecomCardState {
            task_id,
            session_key,
            created_at,
            updated_at: created_at,
            last_action: None,
            monitor: MonitorState::Idle,
        };
        self.cards.insert(key, state);
    }

    /// Registers a fresh panel now.
    pub fn register(&mut self, task_id: String, session_key: Option<String>)
        requires
            old(self).wf(),
        ensures
            final(self).wf(),
            exists|now: i64|
                final(self).cards_map() == #[trigger] old(self).cards_map().insert(
                    task_id@,
                    WecomCardState {
                        task_id,
                        session_key,
                        created_at: now,
                        updated_at: now,
                        last_action: None,
                        monitor: MonitorState::Idle,
                    },
                ),
            final(self).seen_map() == old(self).seen_map(),
            final(self).monitors_map() == old(self).monitors_map(),
            final(self).pending_map() == old(self).pending_map(),
            final(self).recent_jobs == old(self).recent_jobs,
    {
        let now = unix_now_secs();
        self.register_at(task_id, session_key, now);
    }

    /// The live panel of `task_id` at `now` (Unix seconds). A panel not
    /// updated for more than the TTL is removed, with its seen events and
    /// its monitor, and reported as missing.
    pub fn lookup_valid_at(&mut self, task_id: &str, now: i64) -> (r: Option<WecomCardState>)
        requires
            old(self).wf(),
        ensures
            final(self).wf(),
            !old(self).cards_map().dom().contains(task_id@) ==> {
                &&& r is None
                &&& final(self).cards_map() == old(self).cards_map()
                &&& final(self).seen_map() == old(self).seen_map()
                &&& final(self).monitors_map() == old(self).monitors_map()
            },
            old(self).cards_map().dom().contains(task_id@) && now - old(
                self,
            ).cards_map()[task_id@].updated_at > CARD_TTL_SECS ==> {
                &&& r is None
                &&& final(self).cards_map() == old(self).cards_map().remove(task_id@)
                &&& final(self).seen_map() == old(self).seen_map().remove(task_id@)
                &&& final(self).monitors_map() == old(self).monitors_map().remove(task_id@)
            },
            old(self).cards_map().dom().contains(task_id@) && now - old(
                self,
            ).cards_map()[task_id@].updated_at <= CARD_TTL_SECS ==> {
                &&& r == Some(old(self).cards_map()[task_id@])
                &&& final(self).cards_map() == old(self).cards_map()
                &&& final(self).seen_map() == old(self).seen_map()
                &&& final(self).monitors_map() == old(self).monitors_map()
            },
            final(self).pending_map() == old(self).pending_map(),
            final(self).recent_jobs == old(self).recent_jobs,
    {
        let key = owned(task_id);
        let expired = match self.cards.get(&key) {
            Some(state) => now as i128 - state.updated_at as i128 > CARD_TTL_SECS as i128,
            None => {
                return None;
            },
        };
        if expired {
            let ghost seen0 = self.seen_events.view_map();
            self.cards.remove(&key);
            self.seen_events.remove(&key);
            self.monitors.remove(&key);
            assert(self.seen_map() =~= old(self).seen_map().remove(task_id@));
            return None;
        }
        match self.cards.get(&key) {
            Some(state) => Some(state.duplicate()),
            None => None,
        }
    }

    /// The live panel of `task_id` now: what `lookup_valid_at` does at the
    /// time of the call, which the clock gives.
    pub fn lookup_valid(&mut self, task_id: &str) -> (r: Option<WecomCardState>)
        requires
            old(self).wf(),
        ensures
            final(self).wf(),
            exists|now: i64| #[trigger] lookup_outcome(*old(self), task_id@, now, r, *final(self)),
    {
        let now = unix_now_secs();
        let r = self.lookup_valid_at(task_id, now);
        assert(lookup_outcome(*old(self), task_id@, now, r, *self));
        r
    }

    /// Event retry dedup keyed by (task_id, event msgid): true the first
    /// time, false for duplicates.
    pub fn dedup_event(&mut self, task_id: &str, event_id: &str) -> (r: bool)
        requires
            old(self).wf(),
        ensures
            final(self).wf(),
            (r, final(self).seen_map()) == dedup_spec(old(self).seen_map(), task_id@, event_id@),
            final(self).cards_map() == old(self).cards_map(),
            final(self).monitors_map() == old(self).monitors_map(),
            final(self).pending_map() == old(self).pending_map(),
            final(self).recent_jobs == old(self).recent_jobs,
    {
        let key = owned(task_id);
        let ev = owned(event_id);
        let ghost m0 = self.seen_events.view_map();
        let mut list = match self.seen_events.remove(&key) {
            Some(v) => v,
            None => Vec::new(),
        };
        assert(events_view(list) == seen_for(old(self).seen_map(), task_id@));
        let ghost before = events_view(list);
        let fresh = !crate::text::strings_contain(&list, &ev);
        if fresh {
            list.push(ev);
            assert(events_view(list) =~= before.push(event_id@));
        }
        self.seen_events.insert(key, list);
        assert(self.seen_map() =~= dedup_spec(old(self).seen_map(), task_id@, event_id@).1);
        fresh
    }

    /// Records `action` on the panel, updated at `now`.
    pub fn touch_action_at(&mut self, task_id: &str, action: &str, now: i64)
        requires
            old(self).wf(),
        ensures
            final(self).wf(),
            old(self).cards_map().dom().contains(task_id@) ==> final(self).cards_map() == old(
                self,
            ).cards_map().insert(
                task_id@,
                WecomCardState {
                    last_action: final(self).cards_map()[task_id@].last_action,
                    updated_at: now,
                    ..old(self).cards_map()[task_id@]
                },
            ),
            old(self).cards_map().dom().contains(task_id@) ==> (final(self).cards_map()[task_id@].last_action matches Some(a) && a@ == action@),
            !old(self).cards_map().dom().contains(task_id@) ==> final(self).cards_map() == old(
                self,
            ).cards_map(),
            final(self).seen_map() == old(self).seen_map(),
            final(self).monitors_map() == old(self).monitors_map(),
            final(self).pending_map() == old(self).pending_map(),
            final(self).recent_jobs == old(self).recent_jobs,
    {
        let key = owned(task_id);
        match self.cards.remove(&key) {
            Some(state) => {
                let mut state = state;
                let a = owned(action);
                state.last_action = Some(a);
                state.updated_at = now;
                self.cards.insert(key, state);
                assert(self.cards_map() =~= old(self).cards_map().insert(task_id@, state));
            },
            None => {
                assert(self.cards_map() =~= old(self).cards_map());
            },
        }
    }

    /// Records `action` on the panel now: what `touch_action_at` does at the
    /// time of the call, which the clock gives.
    pub fn touch_action(&mut self, task_id: &str, action: &str)
        requires
            old(self).wf(),
        ensures
            final(self).wf(),
            exists|now: i64| #[trigger] touch_outcome(*old(self), task_id@, action@, now, *final(self)),
    {
        let now = unix_now_secs();
        self.touch_action_at(task_id, action, now);
        assert(touch_outcome(*old(self), task_id@, action@, now, *self));
    }

    /// The current monitor state of a task (idle when none).
    pub fn monitor_state(&self, task_id: &str) -> (r: MonitorState)
        requires
            self.wf(),
        ensures
            r == monitor_of(self.monitors_map(), task_id@),
    {
        let key = owned(task_id);
        match self.monitors.get(&key) {
            Some(s) => s.duplicate(),
            None => MonitorState::Idle,
        }
    }
}


} // verus!

verus! {

/// The monitor map after marking `task`'s completed monitor with `delivery`
/// (no change unless it is completed).
pub open spec fn mark_spec(
    m: Map<Seq<char>, MonitorState>,
    task: Seq<char>,
    delivery: MonitorDelivery,
) -> Map<Seq<char>, MonitorState> {
    if m.dom().contains(task) {
        match m[task] {
            MonitorState::Completed { duration_secs, elapsed_ms, summary, completed_at, .. } => {
                m.insert(
                    task,
                    MonitorState::Completed {
                        duration_secs,
                        elapsed_ms,
                        summary,
                        completed_at,
                        delivery,
                    },
                )
            },
            _ => m,
        }
    } else {
        m
    }
}

/// The monitor deadline `duration_secs` after `now_ms` (milliseconds, capped
/// at the clock's end).
pub open spec fn deadline_after(now_ms: u64, duration_secs: u64) -> u64 {
    if now_ms + duration_secs * 1000 > u64::MAX {
        u64::MAX
    } else {
        (now_ms + duration_secs * 1000) as u64
    }
}

impl WecomCardStore {
    /// Fixes `task`'s panel update time.
    fn touch_card(&mut self, key: &String, now: i64)
        requires
            old(self).wf(),
        ensures
            final(self).wf(),
            final(self).cards_map() == touch_spec(old(self).cards_map(), key@, now),
            final(self).seen_map() == old(self).seen_map(),
            final(self).monitors_map() == old(self).monitors_map(),
            final(self).pending_map() == old(self).pending_map(),
            final(self).recent_jobs == old(self).recent_jobs,
    {
        match self.cards.remove(key) {
            Some(state) => {
                let mut state = state;
                state.updated_at = now;
                self.cards.insert(key.clone(), state);
                assert(self.cards_map() =~= touch_spec(old(self).cards_map(), key@, now));
            },
            None => {
                assert(self.cards_map() =~= old(self).cards_map());
            },
        }
    }

    /// Starts a monitor on a task at Unix time `now` and monotonic time
    /// `now_ms`, one at a time: false while one is running on the task; else
    /// it starts, due `duration_secs` later, and the panel shows it.
    pub fn try_start_monitor_at(
        &mut self,
        task_id: &str,
        duration_secs: u64,
        generation: u64,
        now: i64,
        now_ms: u64,
    ) -> (r: bool)
        requires
            old(self).wf(),
        ensures
            final(self).wf(),
            r == !is_running(old(self).monitors_map(), task_id@),
            r ==> final(self).monitors_map() == old(self).monitors_map().insert(
                task_id@,
                MonitorState::Running {
                    duration_secs,
                    started_at: now,
                    deadline: deadline_after(now_ms, duration_secs),
                    generation,
                },
            ) && final(self).cards_map() == touch_spec(old(self).cards_map(), task_id@, now),
            !r ==> final(self).monitors_map() == old(self).monitors_map() && final(self).cards_map()
                == old(self).cards_map(),
            final(self).seen_map() == old(self).seen_map(),
            final(self).pending_map() == old(self).pending_map(),
            final(self).recent_jobs == old(self).recent_jobs,
    {
        let key = owned(task_id);
        let running = match self.monitors.get(&key) {
            Some(MonitorState::Running { .. }) => true,
            _ => false,
        };
        if running {
            return false;
        }
        let deadline: u64 = if duration_secs > (u64::MAX - now_ms) / 1000 {
            u64::MAX
        } else {
            now_ms + duration_secs * 1000
        };
        self.monitors.insert(
            key.clone(),
            MonitorState::Running { duration_secs, started_at: now, deadline, generation },
        );
        self.touch_card(&key, now);
        true
    }

    /// Single-flight monitor admission now.
    pub fn try_start_monitor(&mut self, task_id: &str, duration_secs: u64, generation: u64) -> (r:
        bool)
        requires
            old(self).wf(),
        ensures
            final(self).wf(),
            r == !is_running(old(self).monitors_map(), task_id@),
            r ==> exists|now: i64, now_ms: u64| #[trigger] monitor_started(
                *old(self),
                *final(self),
                task_id@,
                duration_secs,
                generation,
                now,
                now_ms,
            ),
            !r ==> final(self).monitors_map() == old(self).monitors_map() && final(self).cards_map()
                == old(self).cards_map(),
            final(self).seen_map() == old(self).seen_map(),
            final(self).pending_map() == old(self).pending_map(),
            final(self).recent_jobs == old(self).recent_jobs,
    {
        let now = unix_now_secs();
        let now_ms = self.monotonic_now();
        let r = self.try_start_monitor_at(task_id, duration_secs, generation, now, now_ms);
        if r {
            assert(monitor_started(*old(self), *self, task_id@, duration_secs, generation, now, now_ms));
        }
        r
    }

    /// Live remaining seconds of a running monitor at monotonic time `now_ms`
    /// (`None` unless running).
    pub fn monitor_remaining_secs_at(&self, task_id: &str, now_ms: u64) -> (r: Option<u64>)
        requires
            self.wf(),
        ensures
            r == (match monitor_of(self.monitors_map(), task_id@) {
                MonitorState::Running { deadline, .. } => Some(
                    remaining_secs_spec(deadline, now_ms),
                ),
                _ => None,
            }),
    {
        let key = owned(task_id);
        match self.monitors.get(&key) {
            Some(MonitorState::Running { deadline, .. }) => Some(
                remaining_secs_until(*deadline, now_ms),
            ),
            _ => None,
        }
    }

    /// Live remaining seconds of a running monitor now.
    pub fn monitor_remaining_secs(&self, task_id: &str) -> (r: Option<u64>)
        requires
            self.wf(),
        ensures
            r is Some <==> is_running(self.monitors_map(), task_id@),
    {
        let now_ms = self.monotonic_now();
        self.monitor_remaining_secs_at(task_id, now_ms)
    }

    /// Marks a monitor completed at `now` with delivery pending.
    pub fn complete_monitor_at(
        &mut self,
        task_id: &str,
        duration_secs: u64,
        elapsed_ms: u64,
        summary: String,
        now: i64,
    )
        requires
            old(self).wf(),
        ensures
            final(self).wf(),
            final(self).monitors_map() == old(self).monitors_map().insert(
                task_id@,
                MonitorState::Completed {
                    duration_secs,
                    elapsed_ms,
                    summary,
                    completed_at: now,
                    delivery: MonitorDelivery::Pending,
                },
            ),
            final(self).cards_map() == touch_spec(old(self).cards_map(), task_id@, now),
            final(self).seen_map() == old(self).seen_map(),
            final(self).pending_map() == old(self).pending_map(),
            final(self).recent_jobs == old(self).recent_jobs,
    {
        let key = owned(task_id);
        self.monitors.insert(
            key.clone(),
            MonitorState::Completed {
                duration_secs,
                elapsed_ms,
                summary,
                completed_at: now,
                delivery: MonitorDelivery::Pending,
            },
        );
        self.touch_card(&key, now);
    }

    /// Marks a monitor completed now.
    pub fn complete_monitor(&mut self, task_id: &str, duration_secs: u64, elapsed_ms: u64, summary: String)
        requires
            old(self).wf(),
        ensures
            final(self).wf(),
            exists|now: i64|
                {
                    &&& final(self).monitors_map() == #[trigger] old(self).monitors_map().insert(
                        task_id@,
                        MonitorState::Completed {
                            duration_secs,
                            elapsed_ms,
                            summary,
                            completed_at: now,
                            delivery: MonitorDelivery::Pending,
                        },
                    )
                    &&& final(self).cards_map() == touch_spec(old(self).cards_map(), task_id@, now)
                },
            final(self).seen_map() == old(self).seen_map(),
            final(self).pending_map() == old(self).pending_map(),
            final(self).recent_jobs == old(self).recent_jobs,
    {
        let now = unix_now_secs();
        self.complete_monitor_at(task_id, duration_secs, elapsed_ms, summary, now);
    }

    fn set_delivery(&mut self, task_id: &str, delivery: MonitorDelivery)
        requires
            old(self).wf(),
        ensures
            final(self).wf(),
            final(self).monitors_map() == mark_spec(old(self).monitors_map(), task_id@, delivery),
            final(self).cards_map() == old(self).cards_map(),
            final(self).seen_map() == old(self).seen_map(),
            final(self).pending_map() == old(self).pending_map(),
            final(self).recent_jobs == old(self).recent_jobs,
    {
        let key = owned(task_id);
        match self.monitors.remove(&key) {
            Some(state) => {
                let new_state = match state {
                    MonitorState::Completed {
                        duration_secs,
                        elapsed_ms,
                        summary,
                        completed_at,
                        delivery: _,
                    } => MonitorState::Completed {
                        duration_secs,
                        elapsed_ms,
                        summary,
                        completed_at,
                        delivery,
                    },
                    other => other,
                };
                self.monitors.insert(key, new_state);
                assert(self.monitors_map() =~= mark_spec(old(self).monitors_map(), task_id@, delivery));
            },
            None => {
                assert(self.monitors_map() =~= old(self).monitors_map());
            },
        }
    }

    /// ACK errcode 0 for the proactive result: delivery `Sent`.
    pub fn mark_delivery_sent(&mut self, task_id: &str)
        requires
            old(self).wf(),
        ensures
            final(self).wf(),
            final(self).monitors_map() == mark_spec(
                old(self).monitors_map(),
                task_id@,
                MonitorDelivery::Sent,
            ),
            final(self).cards_map() == old(self).cards_map(),
            final(self).pending_map() == old(self).pending_map(),
    {
        self.set_delivery(task_id, MonitorDelivery::Sent);
    }

    /// ACK errcode other than 0 for the proactive result: delivery `Failed`;
    /// the monitor itself is never run again.
    pub fn mark_delivery_failed(&mut self, task_id: &str, errcode: i64)
        requires
            old(self).wf(),
        ensures
            final(self).wf(),
            final(self).monitors_map() == mark_spec(
                old(self).monitors_map(),
                task_id@,
                MonitorDelivery::Failed { errcode },
            ),
            final(self).cards_map() == old(self).cards_map(),
            final(self).pending_map() == old(self).pending_map(),
    {
        self.set_delivery(task_id, MonitorDelivery::Failed { errcode });
    }

    /// Marks a monitor failed (or timed out) at `now`.
    pub fn fail_monitor_at(&mut self, task_id: &str, error_summary: String, elapsed_ms: u64, now: i64)
        requires
            old(self).wf(),
        ensures
            final(self).wf(),
            final(self).monitors_map() == old(self).monitors_map().insert(
                task_id@,
                MonitorState::Failed { error_summary, elapsed_ms },
            ),
            final(self).cards_map() == touch_spec(old(self).cards_map(), task_id@, now),
            final(self).seen_map() == old(self).seen_map(),
            final(self).pending_map() == old(self).pending_map(),
            final(self).recent_jobs == old(self).recent_jobs,
    {
        let key = owned(task_id);
        self.monitors.insert(key.clone(), MonitorState::Failed { error_summary, elapsed_ms });
        self.touch_card(&key, now);
    }

    /// Marks a monitor failed now.
    pub fn fail_monitor(&mut self, task_id: &str, error_summary: String, elapsed_ms: u64)
        requires
            old(self).wf(),
        ensures
            final(self).wf(),
            final(self).monitors_map() == old(self).monitors_map().insert(
                task_id@,
                MonitorState::Failed { error_summary, elapsed_ms },
            ),
            exists|now: i64| final(self).cards_map() == #[trigger] touch_spec(old(self).cards_map(), task_id@, now),
            final(self).seen_map() == old(self).seen_map(),
            final(self).pending_map() == old(self).pending_map(),
            final(self).recent_jobs == old(self).recent_jobs,
    {
        let now = unix_now_secs();
        self.fail_monitor_at(task_id, error_summary, elapsed_ms, now);
    }

    /// Moves a running monitor's deadline (for deterministic countdowns).
    pub fn set_monitor_deadline_for_test(&mut self, task_id: &str, deadline: u64)
        requires
            old(self).wf(),
        ensures
            final(self).wf(),
            final(self).monitors_map() == (match monitor_of(old(self).monitors_map(), task_id@) {
                MonitorState::Running { duration_secs, started_at, generation, .. } => old(
                    self,
                ).monitors_map().insert(
                    task_id@,
                    MonitorState::Running { duration_secs, started_at, deadline, generation },
                ),
                _ => old(self).monitors_map(),
            }),
            final(self).cards_map() == old(self).cards_map(),
    {
        let key = owned(task_id);
        let current = match self.monitors.get(&key) {
            Some(MonitorState::Running { duration_secs, started_at, generation, .. }) => Some(
                (*duration_secs, *started_at, *generation),
            ),
            _ => None,
        };
        if let Some((duration_secs, started_at, generation)) = current {
            self.monitors.insert(
                key,
                MonitorState::Running { duration_secs, started_at, deadline, generation },
            );
        }
    }

    /// Records one handled inbound WeCom message at `now` (newest first, at
    /// most 20 kept).
    pub fn record_job_at(&mut self, chat_type: &str, status: &str, now: i64)
        requires
            old(self).wf(),
        ensures
            final(self).wf(),
            final(self).recent_jobs@.len() == record_spec(
                old(self).recent_jobs@,
                final(self).recent_jobs@[0],
            ).len(),
            final(self).recent_jobs@ == record_spec(old(self).recent_jobs@, final(self).recent_jobs@[0]),
            final(self).recent_jobs@[0].chat_type@ == chat_type@,
            final(self).recent_jobs@[0].status@ == status@,
            final(self).recent_jobs@[0].created_at == now,
            final(self).cards_map() == old(self).cards_map(),
            final(self).seen_map() == old(self).seen_map(),
            final(self).monitors_map() == old(self).monitors_map(),
            final(self).pending_map() == old(self).pending_map(),
    {
        let job = WecomRecentJob { chat_type: owned(chat_type), status: owned(status), created_at: now };
        let ghost j = job;
        self.recent_jobs.insert(0, job);
        assert(self.recent_jobs@ =~= seq![j] + old(self).recent_jobs@);
        if self.recent_jobs.len() > RECENT_JOBS_KEPT {
            self.recent_jobs.pop();
            assert(self.recent_jobs@ =~= (seq![j] + old(self).recent_jobs@).take(
                RECENT_JOBS_KEPT as int,
            ));
        }
    }

    /// Records one handled inbound WeCom message now.
    pub fn record_job(&mut self, chat_type: &str, status: &str)
        requires
            old(self).wf(),
        ensures
            final(self).wf(),
            final(self).recent_jobs@ == record_spec(old(self).recent_jobs@, final(self).recent_jobs@[0]),
            final(self).recent_jobs@[0].chat_type@ == chat_type@,
            final(self).recent_jobs@[0].status@ == status@,
            final(self).cards_map() == old(self).cards_map(),
            final(self).seen_map() == old(self).seen_map(),
            final(self).monitors_map() == old(self).monitors_map(),
            final(self).pending_map() == old(self).pending_map(),
    {
        let now = unix_now_secs();
        self.record_job_at(chat_type, status, now);
    }

    /// The recent-jobs card text (the last five, redacted).
    pub fn recent_jobs_text(&self) -> (r: String)
        requires
            self.wf(),
        ensures
            r@ == recent_jobs_text_spec(self.recent_jobs@),
    {
        let n: usize = if self.recent_jobs.len() > RECENT_JOBS_LIMIT {
            RECENT_JOBS_LIMIT
        } else {
            self.recent_jobs.len()
        };
        if n == 0 {
            return owned("最近任务\n\n暂无最近任务。");
        }
        let mut s = owned("最近任务（");
        push_dec(&mut s, n as u64);
        push_str(&mut s, " 条）\n");
        let ghost header = s@;
        let mut k: usize = 0;
        while k < n
            invariant
                k <= n <= self.recent_jobs.len(),
                n <= RECENT_JOBS_LIMIT,
                s@ == header + job_lines(self.recent_jobs@, k as nat),
            decreases n - k,
        {
            let job = &self.recent_jobs[k];
            push_str(&mut s, "\n");
            push_dec(&mut s, (k + 1) as u64);
            push_str(&mut s, ". ");
            push_str(&mut s, job.chat_type.as_str());
            push_str(&mut s, " | ");
            push_str(&mut s, job.status.as_str());
            push_str(&mut s, " | Unix ");
            push_idec(&mut s, job.created_at);
            assert(s@ =~= header + job_lines(self.recent_jobs@, (k + 1) as nat));
            k += 1;
        }
        s
    }

    /// Tracks an outbound card/proactive req_id until its ACK arrives.
    pub fn note_card_req_id(&mut self, req_id: &str, kind: WecomCardReqKind, task_id: Option<&str>)
        requires
            old(self).wf(),
        ensures
            final(self).wf(),
            final(self).pending_map().dom() == old(self).pending_map().dom().insert(req_id@),
            final(self).pending_map()[req_id@].kind == kind,
            (match (final(self).pending_map()[req_id@].task_id, task_id) {
                (Some(a), Some(b)) => a@ == b@,
                (None, None) => true,
                _ => false,
            }),
            forall|k: Seq<char>|
                k != req_id@ && old(self).pending_map().dom().contains(k) ==> final(self).pending_map()[k] == old(self).pending_map()[k],
            final(self).cards_map() == old(self).cards_map(),
            final(self).monitors_map() == old(self).monitors_map(),
            final(self).seen_map() == old(self).seen_map(),
            final(self).recent_jobs == old(self).recent_jobs,
    {
        let t = match task_id {
            Some(v) => Some(owned(v)),
            None => None,
        };
        let req = WecomCardPendingReq { kind, task_id: t };
        self.pending_card_req_ids.insert(owned(req_id), req);
    }

    /// Returns and clears the pending req when its ACK arrives.
    pub fn consume_card_req_ack(&mut self, req_id: &str) -> (r: Option<WecomCardPendingReq>)
        requires
            old(self).wf(),
        ensures
            final(self).wf(),
            final(self).pending_map() == old(self).pending_map().remove(req_id@),
            r matches Some(p) ==> {
                &&& old(self).pending_map().dom().contains(req_id@)
                &&& p == old(self).pending_map()[req_id@]
            },
            r is None ==> !old(self).pending_map().dom().contains(req_id@),
            final(self).cards_map() == old(self).cards_map(),
            final(self).monitors_map() == old(self).monitors_map(),
    {
        let key = owned(req_id);
        self.pending_card_req_ids.remove(&key)
    }

    /// Clears the whole store.
    pub fn reset(&mut self)
        ensures
            final(self).wf(),
            final(self).cards_map() == Map::<Seq<char>, WecomCardState>::empty(),
            final(self).seen_map() == Map::<Seq<char>, Seq<Seq<char>>>::empty(),
            final(self).monitors_map() == Map::<Seq<char>, MonitorState>::empty(),
            final(self).pending_map() == Map::<Seq<char>, WecomCardPendingReq>::empty(),
            final(self).recent_jobs@.len() == 0,
    {
        self.cards.clear();
        self.seen_events.clear();
        self.monitors.clear();
        self.pending_card_req_ids.clear();
        self.recent_jobs = Vec::new();
        assert(self.seen_map() =~= Map::<Seq<char>, Seq<Seq<char>>>::empty());
    }
}

} // verus!

verus! {

impl Default for WecomCardStore {
    fn default() -> (r: Self)
        ensures
            r.wf(),
            r.cards_map() == Map::<Seq<char>, WecomCardState>::empty(),
            r.monitors_map() == Map::<Seq<char>, MonitorState>::empty(),
            r.pending_map() == Map::<Seq<char>, WecomCardPendingReq>::empty(),
    {
        Self::new()
    }
}

/// A retried event frame cannot run an action twice: the first delivery of
/// `(task, event)` is new, and once it has been seen every later delivery is
/// a duplicate.
pub proof fn lemma_dedup_second_delivery_is_duplicate(
    seen: Map<Seq<char>, Seq<Seq<char>>>,
    task: Seq<char>,
    event: Seq<char>,
)
    ensures
        !dedup_spec(dedup_spec(seen, task, event).1, task, event).0,
        dedup_spec(seen, task, event).0 == !seen_for(seen, task).contains(event),
{
    let after = dedup_spec(seen, task, event).1;
    let s = seen_for(seen, task);
    if !s.contains(event) {
        assert(seen_for(after, task) == s.push(event));
        assert(s.push(event)[s.len() as int] == event);
    }
}

/// Monitors are single-flight: once a start has been admitted, every further
/// start of the same task is refused (until the monitor completes or fails).
pub proof fn lemma_monitor_single_flight(
    m: Map<Seq<char>, MonitorState>,
    task: Seq<char>,
    duration_secs: u64,
    started_at: i64,
    deadline: u64,
    generation: u64,
)
    ensures
        is_running(
            m.insert(task, MonitorState::Running { duration_secs, started_at, deadline, generation }),
            task,
        ),
{
}

/// A delivery ACK only changes a completed monitor's delivery field: the
/// monitor stays completed (it is never run again), and any other state is
/// left as it was.
pub proof fn lemma_delivery_mark_keeps_phase(
    m: Map<Seq<char>, MonitorState>,
    task: Seq<char>,
    delivery: MonitorDelivery,
)
    ensures
        monitor_of(m, task) is Completed ==> monitor_of(mark_spec(m, task, delivery), task) is Completed
            && (match monitor_of(mark_spec(m, task, delivery), task) {
            MonitorState::Completed { delivery: d, .. } => d == delivery,
            _ => false,
        }),
        !(monitor_of(m, task) is Completed) ==> mark_spec(m, task, delivery) == m,
        forall|t: Seq<char>| t != task ==> monitor_of(mark_spec(m, task, delivery), t) == monitor_of(m, t),
{
}

/// An ACK correlates with the req_id noted for it exactly once: consuming it
/// gives back what was noted, and a second consumption finds nothing.
pub proof fn lemma_ack_consumed_once(
    pending: Map<Seq<char>, WecomCardPendingReq>,
    req_id: Seq<char>,
    req: WecomCardPendingReq,
)
    ensures
        pending.insert(req_id, req).dom().contains(req_id),
        pending.insert(req_id, req)[req_id] == req,
        !pending.insert(req_id, req).remove(req_id).dom().contains(req_id),
{
}

} // verus!

verus! {

/// The sender of a callback.
#[derive(Debug, Clone, PartialEq, Eq)]
pub struct WecomCallbackFrom {
    pub userid: Option<String>,
}

/// The nested `template_card_event` payload (real runtime shape).
#[derive(Debug, Clone, PartialEq, Eq)]
pub struct WecomTemplateCardEvent {
    pub card_type: Option<String>,
    pub event_key: Option<String>,
    pub task_id: Option<String>,
}

/// The `event` part of a callback.
#[derive(Debug, Clone, PartialEq, Eq)]
pub struct WecomCallbackEvent {
    pub eventtype: Option<String>,
    pub event_key: Option<String>,
    pub task_id: Option<String>,
    pub card_type: Option<String>,
    pub template_card_event: Option<WecomTemplateCardEvent>,
}

/// The fields of a WeCom callback body that card handling reads.
#[derive(Debug, Clone, PartialEq, Eq)]
pub struct WecomCallbackBody {
    pub msgid: String,
    pub msgtype: Option<String>,
    pub chatid: Option<String>,
    pub chattype: Option<String>,
    pub from: Option<WecomCallbackFrom>,
    pub event: Option<WecomCallbackEvent>,
}

/// Whether an optional string is present and equal to `lit`.
pub open spec fn opt_is(s: Option<String>, lit: Seq<char>) -> bool {
    s matches Some(v) && v@ == lit
}

fn opt_eq(s: &Option<String>, lit: &str) -> (r: bool)
    ensures
        r == opt_is(*s, lit@),
{
    match s {
        Some(v) => {
            let c = crate::text::chars_of(v.as_str());
            chars_eq_str(c.as_slice(), lit)
        },
        None => false,
    }
}

/// A callback is a template-card click only when `msgtype` is `event` and
/// the event's `eventtype` is `template_card_event`.
pub open spec fn is_card_event_spec(body: WecomCallbackBody) -> bool {
    &&& opt_is(body.msgtype, "event"@)
    &&& body.event matches Some(e) && opt_is(e.eventtype, "template_card_event"@)
}

/// Official routing discriminator for template-card clicks.
pub fn is_template_card_event(body: &WecomCallbackBody) -> (r: bool)
    ensures
        r == is_card_event_spec(*body),
{
    if !opt_eq(&body.msgtype, "event") {
        return false;
    }
    match &body.event {
        Some(e) => opt_eq(&e.eventtype, "template_card_event"),
        None => false,
    }
}

/// Normalized, transport-independent card event.
#[derive(Debug, Clone, PartialEq, Eq)]
pub struct NormalizedWecomCardEvent {
    pub task_id: Option<String>,
    pub event_key: Option<String>,
    pub card_type: Option<String>,
    pub req_id: String,
    pub msg_id: String,
    pub user_id: Option<String>,
    pub chat_id: Option<String>,
}

/// The nested value when present, else the flat one.
pub open spec fn prefer(nested: Option<String>, flat: Option<String>) -> Option<String> {
    match nested {
        Some(v) => Some(v),
        None => flat,
    }
}

fn prefer_exec(nested: &Option<String>, flat: &Option<String>) -> (r: Option<String>)
    ensures
        r == prefer(*nested, *flat),
{
    match nested {
        Some(v) => Some(v.clone()),
        None => dup_opt_string(flat),
    }
}

/// The single card-event normalizer: `None` unless the callback is a
/// template-card event; each of task_id, event_key and card_type is taken
/// from the nested runtime payload when it has it, else from the flat event.
pub fn normalize_template_card_event(body: &WecomCallbackBody, req_id: &str) -> (r: Option<
    NormalizedWecomCardEvent,
>)
    ensures
        !is_card_event_spec(*body) ==> r is None,
        is_card_event_spec(*body) ==> r is Some,
        r matches Some(n) ==> {
            let e = body.event->0;
            let (nt, nk, nc) = match e.template_card_event {
                Some(t) => (t.task_id, t.event_key, t.card_type),
                None => (None, None, None),
            };
            &&& n.task_id == prefer(nt, e.task_id)
            &&& n.event_key == prefer(nk, e.event_key)
            &&& n.card_type == prefer(nc, e.card_type)
            &&& n.req_id@ == req_id@
            &&& n.msg_id == body.msgid
            &&& n.user_id == (match body.from {
                Some(f) => f.userid,
                None => None,
            })
            &&& n.chat_id == body.chatid
        },
{
    if !is_template_card_event(body) {
        return None;
    }
    let event = match &body.event {
        Some(e) => e,
        None => {
            return None;
        },
    };
    let none: Option<String> = None;
    let (nt, nk, nc) = match &event.template_card_event {
        Some(t) => (&t.task_id, &t.event_key, &t.card_type),
        None => (&none, &none, &none),
    };
    let user_id = match &body.from {
        Some(f) => dup_opt_string(&f.userid),
        None => None,
    };
    Some(
        NormalizedWecomCardEvent {
            task_id: prefer_exec(nt, &event.task_id),
            event_key: prefer_exec(nk, &event.event_key),
            card_type: prefer_exec(nc, &event.card_type),
            req_id: owned(req_id),
            msg_id: body.msgid.clone(),
            user_id,
            chat_id: dup_opt_string(&body.chatid),
        },
    )
}

/// Which wire shape produced the event: `nested_runtime` when the event has
/// the nested payload, else `flat_sdk`.
pub fn card_event_source(body: &WecomCallbackBody) -> (r: &'static str)
    ensures
        r@ == (if body.event matches Some(e) && e.template_card_event is Some {
            "nested_runtime"@
        } else {
            "flat_sdk"@
        }),
{
    match &body.event {
        Some(e) => match &e.template_card_event {
            Some(_) => "nested_runtime",
            None => "flat_sdk",
        },
        None => "flat_sdk",
    }
}

/// A value trimmed of surrounding whitespace, when that leaves something.
pub open spec fn trimmed_nonempty(s: Option<String>) -> Option<Seq<char>> {
    match s {
        Some(v) => if trim_seq(v@).len() > 0 {
            Some(trim_seq(v@))
        } else {
            None
        },
        None => None,
    }
}

fn trimmed_nonempty_exec(s: &Option<String>) -> (r: Option<String>)
    ensures
        match r {
            Some(v) => trimmed_nonempty(*s) == Some(v@),
            None => trimmed_nonempty(*s) is None,
        },
{
    match s {
        Some(v) => {
            let t = crate::text::str_trim(v.as_str());
            if t.is_empty() {
                None
            } else {
                Some(owned(t))
            }
        },
        None => None,
    }
}

/// Proactive target: a group chat goes to its chatid, any other chat to the
/// sender's userid; each trimmed, and absent when empty.
pub fn resolve_card_target(body: &WecomCallbackBody) -> (r: Option<String>)
    ensures
        match r {
            Some(v) => Some(v@) == (if opt_is(body.chattype, "group"@) {
                trimmed_nonempty(body.chatid)
            } else {
                trimmed_nonempty(
                    match body.from {
                        Some(f) => f.userid,
                        None => None,
                    },
                )
            }),
            None => (if opt_is(body.chattype, "group"@) {
                trimmed_nonempty(body.chatid)
            } else {
                trimmed_nonempty(
                    match body.from {
                        Some(f) => f.userid,
                        None => None,
                    },
                )
            }) is None,
        },
{
    if opt_eq(&body.chattype, "group") {
        trimmed_nonempty_exec(&body.chatid)
    } else {
        match &body.from {
            Some(f) => trimmed_nonempty_exec(&f.userid),
            None => trimmed_nonempty_exec(&None),
        }
    }
}

} // verus!

verus! {

/// A fresh panel task id: "wecom_panel_" and a random UUID. No user, chat,
/// message or secret material is embedded.
pub fn new_task_id() -> (r: String)
    ensures
        exists|u: Seq<char>| crate::ids::is_hyphenated_uuid(u) && r@ == "wecom_panel_"@ + u,
{
    let u = crate::ids::uuid_v4_string();
    let mut s = owned("wecom_panel_");
    push_str(&mut s, u.as_str());
    s
}

} // verus!

verus! {

// ---------------------------------------------------------------------------
// Gateway status
// ---------------------------------------------------------------------------

/// The enabled channels a status card lists (no secrets): Feishu, WeChat,
/// WeCom and DingTalk, by their entries or the gateway's own endpoints.
pub open spec fn enabled_channels_spec(c: crate::gateway::Config) -> Seq<Seq<char>> {
    let on = |e: Option<crate::gateway::ChannelEntry>| e matches Some(x) && x.enabled;
    let s0: Seq<Seq<char>> = seq![];
    let s1 = if on(c.channels_config.feishu) { s0.push("feishu"@) } else { s0 };
    let s2 = if on(c.channels_config.wechat) { s1.push("wechat"@) } else { s1 };
    let s3 = if on(c.channels_config.wecom) || c.gateway_wecom_enabled { s2.push("wecom"@) } else { s2 };
    if on(c.channels_config.dingtalk) || c.gateway_dingtalk_enabled { s3.push("dingtalk"@) } else { s3 }
}

fn entry_enabled(e: &Option<crate::gateway::ChannelEntry>) -> (r: bool)
    ensures
        r == (*e matches Some(x) && x.enabled),
{
    match e {
        Some(x) => x.enabled,
        None => false,
    }
}

/// The views of a list of static strings.
pub open spec fn statics_view(v: Seq<&'static str>) -> Seq<Seq<char>> {
    v.map_values(|s: &'static str| s@)
}

/// The enabled channels, deterministic and without secrets.
pub fn enabled_channels(config: &crate::gateway::Config) -> (r: Vec<&'static str>)
    ensures
        statics_view(r@) == enabled_channels_spec(*config),
{
    let cc = &config.channels_config;
    let mut out: Vec<&'static str> = Vec::new();
    if entry_enabled(&cc.feishu) {
        out.push("feishu");
    }
    if entry_enabled(&cc.wechat) {
        out.push("wechat");
    }
    if entry_enabled(&cc.wecom) || config.gateway_wecom_enabled {
        out.push("wecom");
    }
    if entry_enabled(&cc.dingtalk) || config.gateway_dingtalk_enabled {
        out.push("dingtalk");
    }
    assert(statics_view(out@) =~= enabled_channels_spec(*config));
    out
}

/// The state a gateway status card reports (no hard-coded health claims).
pub struct WecomGatewayStatusSnapshot {
    pub transport: &'static str,
    pub connection_connected: bool,
    pub stream_active: bool,
    pub generation: u64,
    /// Whether the last heartbeat time is tracked (it is not, yet).
    pub last_heartbeat_available: bool,
    pub enabled_channels: Vec<&'static str>,
    pub agent_name: String,
}

/// Items joined with a separator.
pub open spec fn join(items: Seq<Seq<char>>, sep: Seq<char>) -> Seq<char>
    decreases items.len(),
{
    if items.len() == 0 {
        seq![]
    } else if items.len() == 1 {
        items[0]
    } else {
        join(items.drop_last(), sep) + sep + items.last()
    }
}

/// The gateway status card text at a given time text.
pub open spec fn gateway_status_spec(s: WecomGatewayStatusSnapshot, time_text: Seq<char>) -> Seq<char> {
    "Gateway 状态\n\nGateway running: true\nWeCom transport: "@ + s.transport@ + "\nconnection: "@
        + (if s.connection_connected { "connected"@ } else { "disconnected"@ }) + "\nstream active: "@
        + crate::feishu::bool_text(s.stream_active) + "\ngeneration: "@ + dec(s.generation as nat)
        + "\nlast heartbeat: "@ + (if s.last_heartbeat_available {
        "已追踪"@
    } else {
        "未追踪（当前版本不记录心跳时间）"@
    }) + "\nenabled channels: "@ + (if s.enabled_channels@.len() == 0 {
        "无"@
    } else {
        join(statics_view(s.enabled_channels@), "、"@)
    }) + "\nAgent: "@ + s.agent_name@ + "\n时间: "@ + time_text
}

fn push_joined(out: &mut String, items: &Vec<&'static str>, sep: &str)
    ensures
        final(out)@ == old(out)@ + join(statics_view(items@), sep@),
{
    let ghost start = out@;
    let mut i: usize = 0;
    while i < items.len()
        invariant
            i <= items.len(),
            out@ == start + join(statics_view(items@).take(i as int), sep@),
        decreases items.len() - i,
    {
        let ghost before = out@;
        if i > 0 {
            push_str(out, sep);
        }
        push_str(out, items[i]);
        proof {
            let t = statics_view(items@).take(i + 1);
            assert(t.drop_last() =~= statics_view(items@).take(i as int));
            assert(t.last() == items@[i as int]@);
            if i == 0 {
                assert(t.len() == 1);
            }
        }
        assert(out@ =~= start + join(statics_view(items@).take(i + 1), sep@));
        i += 1;
    }
    assert(statics_view(items@).take(i as int) =~= statics_view(items@));
}

/// The gateway status card text, with the time already formatted.
pub fn gateway_status_text_at(snapshot: &WecomGatewayStatusSnapshot, time_text: &str) -> (r: String)
    ensures
        r@ == gateway_status_spec(*snapshot, time_text@),
{
    let mut s = owned("Gateway 状态\n\nGateway running: true\nWeCom transport: ");
    push_str(&mut s, snapshot.transport);
    push_str(&mut s, "\nconnection: ");
    if snapshot.connection_connected {
        push_str(&mut s, "connected");
    } else {
        push_str(&mut s, "disconnected");
    }
    push_str(&mut s, "\nstream active: ");
    if snapshot.stream_active {
        push_str(&mut s, "true");
    } else {
        push_str(&mut s, "false");
    }
    push_str(&mut s, "\ngeneration: ");
    push_dec(&mut s, snapshot.generation);
    push_str(&mut s, "\nlast heartbeat: ");
    if snapshot.last_heartbeat_available {
        push_str(&mut s, "已追踪");
    } else {
        push_str(&mut s, "未追踪（当前版本不记录心跳时间）");
    }
    push_str(&mut s, "\nenabled channels: ");
    let ghost mid = s@;
    if snapshot.enabled_channels.len() == 0 {
        push_str(&mut s, "无");
    } else {
        push_joined(&mut s, &snapshot.enabled_channels, "、");
    }
    push_str(&mut s, "\nAgent: ");
    push_str(&mut s, snapshot.agent_name.as_str());
    push_str(&mut s, "\n时间: ");
    push_str(&mut s, time_text);
    assert(s@ =~= gateway_status_spec(*snapshot, time_text@));
    s
}

#[verifier::external_type_specification]
#[verifier::external_body]
pub struct ExOffsetDateTime(time::OffsetDateTime);

/// `OffsetDateTime::format` with the RFC 3339 description: the time's text,
/// or `None` when it cannot be written so. The text is not stated.
#[verifier::external_body]
fn rfc3339_text(now: &time::OffsetDateTime) -> Option<String> {
    match now.format(&time::format_description::well_known::Rfc3339) {
        Ok(s) => Some(s),
        Err(_) => None,
    }
}

/// `OffsetDateTime::unix_timestamp`: the time in Unix seconds (not stated).
#[verifier::external_body]
fn unix_timestamp_of(now: &time::OffsetDateTime) -> i64 {
    now.unix_timestamp()
}

/// The gateway status card text at time `now`: RFC 3339, or the Unix
/// seconds when that cannot be written.
pub fn gateway_status_text(snapshot: &WecomGatewayStatusSnapshot, now: &time::OffsetDateTime) -> (r:
    String)
    ensures
        exists|t: Seq<char>| r@ == gateway_status_spec(*snapshot, t),
{
    let time_text = match rfc3339_text(now) {
        Some(t) => t,
        None => {
            let mut t = String::new();
            push_idec(&mut t, unix_timestamp_of(now));
            t
        },
    };
    gateway_status_text_at(snapshot, time_text.as_str())
}

// ---------------------------------------------------------------------------
// Card actions
// ---------------------------------------------------------------------------

/// What a card action needs to know.
pub struct CardActionContext {
    pub task_id: String,
    pub session_key: Option<String>,
    pub action: WecomPanelAction,
    /// Where a proactive result goes: the user in a single chat, the chat in a group.
    pub target_chat_id: Option<String>,
}

/// The answer to a card action, shown in the card.
pub struct CardActionResult {
    pub title: &'static str,
    pub content: String,
}

/// The title of an action's answer.
pub open spec fn action_title(a: WecomPanelAction) -> Seq<char> {
    match a {
        WecomPanelAction::GatewayStatus => "网关状态"@,
        WecomPanelAction::RecentJobs => "最近任务"@,
        WecomPanelAction::Monitor30 => "桌面监控 · 30 秒"@,
        WecomPanelAction::Monitor60 => "桌面监控 · 60 秒"@,
        WecomPanelAction::Help => "帮助"@,
    }
}

/// The monitor duration an action starts, if it is a monitor action.
pub open spec fn action_duration(a: WecomPanelAction) -> Option<u64> {
    match a {
        WecomPanelAction::Monitor30 => Some(30),
        WecomPanelAction::Monitor60 => Some(60),
        _ => None,
    }
}

/// The answer to a monitor click: the live remaining time while one runs,
/// else the countdown of the one that starts.
pub open spec fn monitor_click_text(
    monitors: Map<Seq<char>, MonitorState>,
    task: Seq<char>,
    duration_secs: u64,
    now_ms: u64,
) -> Seq<char> {
    match monitor_of(monitors, task) {
        MonitorState::Running { deadline, .. } => "桌面监控正在运行\n剩余："@ + dec(
            remaining_secs_spec(deadline, now_ms) as nat,
        ) + " 秒"@,
        _ => "桌面监控\n状态：监控中\n总时长："@ + dec(duration_secs as nat) + " 秒\n剩余："@ + dec(
            duration_secs as nat,
        ) + " 秒"@,
    }
}

/// The text shown when a second monitor cannot start.
pub open spec fn busy_text() -> Seq<char> {
    "桌面监控正在运行，请稍候…"@
}

impl WecomCardStore {
    /// A monitor click at Unix time `now` and monotonic time `now_ms`: while
    /// a monitor runs, the remaining time (nothing starts); otherwise a
    /// monitor starts. Returns the card text and whether it started.
    pub fn start_monitor_at(
        &mut self,
        task_id: &str,
        duration_secs: u64,
        generation: u64,
        now: i64,
        now_ms: u64,
    ) -> (r: (String, bool))
        requires
            old(self).wf(),
        ensures
            final(self).wf(),
            r.1 == !is_running(old(self).monitors_map(), task_id@),
            r.0@ == monitor_click_text(old(self).monitors_map(), task_id@, duration_secs, now_ms),
            r.1 ==> final(self).monitors_map() == old(self).monitors_map().insert(
                task_id@,
                MonitorState::Running {
                    duration_secs,
                    started_at: now,
                    deadline: deadline_after(now_ms, duration_secs),
                    generation,
                },
            ),
            r.1 ==> final(self).cards_map() == touch_spec(old(self).cards_map(), task_id@, now),
            !r.1 ==> final(self).monitors_map() == old(self).monitors_map() && final(self).cards_map()
                == old(self).cards_map(),
            final(self).seen_map() == old(self).seen_map(),
            final(self).pending_map() == old(self).pending_map(),
            final(self).recent_jobs == old(self).recent_jobs,
    {
        if let Some(remaining) = self.monitor_remaining_secs_at(task_id, now_ms) {
            let mut s = owned("桌面监控正在运行\n剩余：");
            push_dec(&mut s, remaining);
            push_str(&mut s, " 秒");
            return (s, false);
        }
        if !self.try_start_monitor_at(task_id, duration_secs, generation, now, now_ms) {
            return (owned("桌面监控正在运行，请稍候…"), false);
        }
        let mut s = owned("桌面监控\n状态：监控中\n总时长：");
        push_dec(&mut s, duration_secs);
        push_str(&mut s, " 秒\n剩余：");
        push_dec(&mut s, duration_secs);
        push_str(&mut s, " 秒");
        (s, true)
    }
}

/// The deterministic card action service: no model, no shell, no transport.
pub struct WecomCardActionService;

impl WecomCardActionService {
    /// Runs a card action at Unix time `now` and monotonic time `now_ms`:
    /// records it on the panel and answers with the gateway status text
    /// given, the recent jobs, a monitor click, or the help text. Returns
    /// the answer and whether a monitor started (the caller then runs it).
    pub fn execute_at(
        store: &mut WecomCardStore,
        context: &CardActionContext,
        status_text: &str,
        generation: u64,
        now: i64,
        now_ms: u64,
    ) -> (r: (CardActionResult, bool))
        requires
            old(store).wf(),
        ensures
            final(store).wf(),
            r.0.title@ == action_title(context.action),
            r.1 ==> action_duration(context.action) is Some,
            match context.action {
                WecomPanelAction::GatewayStatus => r.0.content@ == status_text@ && !r.1,
                WecomPanelAction::RecentJobs => r.0.content@ == recent_jobs_text_spec(
                    old(store).recent_jobs@,
                ) && !r.1,
                WecomPanelAction::Help => r.0.content@ == wecom_help_spec() && !r.1,
                WecomPanelAction::Monitor30 | WecomPanelAction::Monitor60 => {
                    let d = action_duration(context.action)->0;
                    &&& r.0.content@ == monitor_click_text(old(store).monitors_map(), context.task_id@, d, now_ms)
                    &&& r.1 == !is_running(old(store).monitors_map(), context.task_id@)
                },
            },
            acted_on(
                *old(store),
                *final(store),
                context.task_id@,
                context.action,
                generation,
                now,
                now_ms,
                r.1,
            ),
    {
        let key = context.action.key();
        store.touch_action_at(context.task_id.as_str(), key, now);
        let ghost s1 = *store;
        proof {
            let t = context.task_id@;
            if s1.cards_map().dom().contains(t) {
                assert(touch_spec(s1.cards_map(), t, now) =~= s1.cards_map());
            }
        }
        match context.action {
            WecomPanelAction::GatewayStatus => (
                CardActionResult { title: "网关状态", content: owned(status_text) },
                false,
            ),
            WecomPanelAction::RecentJobs => (
                CardActionResult { title: "最近任务", content: store.recent_jobs_text() },
                false,
            ),
            WecomPanelAction::Monitor30 => {
                let (content, started) = store.start_monitor_at(
                    context.task_id.as_str(),
                    30,
                    generation,
                    now,
                    now_ms,
                );
                (CardActionResult { title: "桌面监控 · 30 秒", content }, started)
            },
            WecomPanelAction::Monitor60 => {
                let (content, started) = store.start_monitor_at(
                    context.task_id.as_str(),
                    60,
                    generation,
                    now,
                    now_ms,
                );
                (CardActionResult { title: "桌面监控 · 60 秒", content }, started)
            },
            WecomPanelAction::Help => (
                CardActionResult { title: "帮助", content: owned(help_text()) },
                false,
            ),
        }
    }
}

/// Where a finished monitor's result goes, if anywhere: nowhere when its
/// stream generation is stale (a non-zero generation no longer active), when
/// the panel expired, or without a target; else to the target.
pub fn monitor_result_destination(
    generation: u64,
    generation_active: bool,
    panel_valid: bool,
    target_chat_id: Option<String>,
) -> (r: Option<String>)
    ensures
        (generation != 0 && !generation_active) || !panel_valid ==> r is None,
        !(generation != 0 && !generation_active) && panel_valid ==> r == target_chat_id,
{
    if generation != 0 && !generation_active {
        return None;
    }
    if !panel_valid {
        return None;
    }
    target_chat_id
}

// ---------------------------------------------------------------------------
// Card events
// ---------------------------------------------------------------------------

/// The task id of a card event (nested, else flat), trimmed, when it is a
/// card event and the id is not blank.
pub open spec fn card_event_task(body: WecomCallbackBody) -> Option<Seq<char>> {
    if is_card_event_spec(body) {
        let e = body.event->0;
        trimmed_nonempty(
            prefer(
                match e.template_card_event {
                    Some(t) => t.task_id,
                    None => None,
                },
                e.task_id,
            ),
        )
    } else {
        None
    }
}

/// The event key of a card event (nested, else flat), trimmed, when it is
/// a card event and the key is not blank.
pub open spec fn card_event_key(body: WecomCallbackBody) -> Option<Seq<char>> {
    if is_card_event_spec(body) {
        let e = body.event->0;
        trimmed_nonempty(
            prefer(
                match e.template_card_event {
                    Some(t) => t.event_key,
                    None => None,
                },
                e.event_key,
            ),
        )
    } else {
        None
    }
}

/// What a card event leads to.
pub enum CardEventStep {
    /// Nothing is sent: not a card event, no task id or event key, or a
    /// repeated delivery of an event already handled.
    Ignored,
    /// A text reply: the panel expired, or the action is unknown.
    Reply { text: String },
    /// The panel is updated with the action's answer; when a monitor
    /// started, the caller runs it for this context.
    Update { context: CardActionContext, result: CardActionResult, monitor_started: bool },
}

/// Handles a card event at Unix time `now` and monotonic time `now_ms`:
/// the panel must be live, the event new and the action allowed; the action
/// then runs and its update is tracked under `req_id` until acknowledged.
pub fn handle_card_event_at(
    store: &mut WecomCardStore,
    body: &WecomCallbackBody,
    req_id: &str,
    status_text: &str,
    generation: u64,
    now: i64,
    now_ms: u64,
) -> (r: CardEventStep)
    requires
        old(store).wf(),
    ensures
        final(store).wf(),
        card_event_task(*body) is None || card_event_key(*body) is None ==> r is Ignored,
        card_event_task(*body) is Some && card_event_key(*body) is Some ==> {
            let t = card_event_task(*body)->0;
            let k = card_event_key(*body)->0;
            let cards = old(store).cards_map();
            if !cards.dom().contains(t) || now - cards[t].updated_at > CARD_TTL_SECS {
                r matches CardEventStep::Reply { text } && text@ == PANEL_EXPIRED_TEXT@
            } else if !dedup_spec(old(store).seen_map(), t, body.msgid@).0 {
                r is Ignored
            } else if action_from_key(k) is None {
                r matches CardEventStep::Reply { text } && text@ == UNKNOWN_ACTION_TEXT@
            } else {
                r matches CardEventStep::Update { context, result, monitor_started } && {
                    let a = action_from_key(k)->0;
                    &&& context.task_id@ == t
                    &&& context.action == a
                    &&& context.session_key == cards[t].session_key
                    &&& result.title@ == action_title(a)
                    &&& match a {
                        WecomPanelAction::GatewayStatus => result.content@ == status_text@ && !monitor_started,
                        WecomPanelAction::RecentJobs => result.content@ == recent_jobs_text_spec(
                            old(store).recent_jobs@,
                        ) && !monitor_started,
                        WecomPanelAction::Help => result.content@ == wecom_help_spec() && !monitor_started,
                        WecomPanelAction::Monitor30 | WecomPanelAction::Monitor60 => {
                            &&& result.content@ == monitor_click_text(
                                old(store).monitors_map(),
                                t,
                                action_duration(a)->0,
                                now_ms,
                            )
                            &&& monitor_started == !is_running(old(store).monitors_map(), t)
                        },
                    }
                    &&& final(store).pending_map().dom().contains(req_id@)
                    &&& final(store).pending_map()[req_id@].kind == WecomCardReqKind::UpdateCard
                }
            }
        },
        card_event_task(*body) is None || card_event_key(*body) is None ==> {
            &&& final(store).cards_map() == old(store).cards_map()
            &&& final(store).seen_map() == old(store).seen_map()
            &&& final(store).monitors_map() == old(store).monitors_map()
            &&& final(store).pending_map() == old(store).pending_map()
            &&& final(store).recent_jobs == old(store).recent_jobs
        },
        card_event_task(*body) is Some && card_event_key(*body) is Some ==> card_event_store(
            *old(store),
            *final(store),
            card_event_task(*body)->0,
            card_event_key(*body)->0,
            body.msgid@,
            req_id@,
            generation,
            now,
            now_ms,
            step_started(r),
        ),
{
    let normalized = match normalize_template_card_event(body, req_id) {
        Some(n) => n,
        None => return CardEventStep::Ignored,
    };
    proof {
        let e = body.event->0;
        match e.template_card_event {
            Some(t) => {
                assert(normalized.task_id == prefer(t.task_id, e.task_id));
                assert(normalized.event_key == prefer(t.event_key, e.event_key));
            },
            None => {
                assert(normalized.task_id == prefer(None, e.task_id));
                assert(normalized.event_key == prefer(None, e.event_key));
            },
        }
        assert(card_event_task(*body) == trimmed_nonempty(normalized.task_id));
        assert(card_event_key(*body) == trimmed_nonempty(normalized.event_key));
    }
    let task_id = match trimmed_nonempty_exec(&normalized.task_id) {
        Some(t) => t,
        None => return CardEventStep::Ignored,
    };
    let event_key = match trimmed_nonempty_exec(&normalized.event_key) {
        Some(k) => k,
        None => return CardEventStep::Ignored,
    };
    let state = match store.lookup_valid_at(task_id.as_str(), now) {
        Some(s) => s,
        None => return CardEventStep::Reply { text: owned(PANEL_EXPIRED_TEXT) },
    };
    let ghost monitors0 = store.monitors_map();
    let ghost jobs0 = store.recent_jobs;
    if !store.dedup_event(task_id.as_str(), normalized.msg_id.as_str()) {
        return CardEventStep::Ignored;
    }
    let action = match WecomPanelAction::from_event_key(event_key.as_str()) {
        Some(a) => a,
        None => return CardEventStep::Reply { text: owned(UNKNOWN_ACTION_TEXT) },
    };
    let context = CardActionContext {
        task_id: task_id.clone(),
        session_key: dup_opt_string(&state.session_key),
        action,
        target_chat_id: resolve_card_target(body),
    };
    assert(store.monitors_map() == monitors0);
    let (result, monitor_started) = WecomCardActionService::execute_at(
        store,
        &context,
        status_text,
        generation,
        now,
        now_ms,
    );
    store.note_card_req_id(req_id, WecomCardReqKind::UpdateCard, Some(task_id.as_str()));
    CardEventStep::Update { context, result, monitor_started }
}

} // verus!
