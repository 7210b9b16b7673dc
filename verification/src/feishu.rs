//! Feishu worker logic: tool-intent detection for chat-only mode, the command
//! palette triggers and card-action allowlist, the fixed reply texts, the
//! status and recent-jobs texts, the `/monitor` duration parser and the
//! shell-command guard.
use vstd::prelude::*;
use crate::fmt::{dec, idec, padded, push_dec, push_idec, push_padded};
use crate::session::ChannelKind;
use crate::message::{meta_get, metadata_text, InboundMessage, ReplyTarget};
use crate::text::{
    skip_ws, chars_of, contains_chars, first_word, has_second_word, lowercase, owned, push_str,
    seq_contains, seq_starts_with, str_is, str_to_lowercase, str_trim, trim_seq,
};

verus! {

/// Default monitor duration in seconds.
pub const DEFAULT_MONITOR_DURATION_SECS: u64 = 30;

/// Longest monitor duration in seconds.
pub const MAX_MONITOR_DURATION_SECS: u64 = 60;

/// Allowed action keys for card action callbacks; anything else is an
/// unknown action.
pub const ALLOWED_CARD_ACTIONS: [&'static str; 5] = [
    "monitor_30s",
    "monitor_60s",
    "gateway_status",
    "recent_jobs",
    "help",
];

/// Error when enqueuing a job fails.
#[derive(Debug)]
pub enum EnqueueError {
    /// The queue is full.
    QueueFull,
}

/// How many jobs the queue holds at most.
pub const QUEUE_CAPACITY: usize = 100;

/// The length of the job queue.
pub struct FeishuQueueLen {
    pub len: usize,
}

impl FeishuQueueLen {
    /// An empty queue.
    pub fn new() -> (r: Self)
        ensures
            r.len == 0,
    {
        FeishuQueueLen { len: 0 }
    }

    /// Whether a job may be sent: the queue is not full.
    pub fn check_room(&self) -> (r: Result<(), EnqueueError>)
        ensures
            r is Ok <==> self.len < QUEUE_CAPACITY,
    {
        if self.len >= QUEUE_CAPACITY {
            Err(EnqueueError::QueueFull)
        } else {
            Ok(())
        }
    }

    /// Records a job that was sent after `check_room` allowed it.
    pub fn enqueued(&mut self)
        requires
            old(self).len < QUEUE_CAPACITY,
        ensures
            final(self).len == old(self).len + 1,
            final(self).len <= QUEUE_CAPACITY,
    {
        self.len = self.len + 1;
    }

    /// Records a job the worker took off the queue.
    pub fn dequeued(&mut self)
        ensures
            final(self).len == if old(self).len > 0 {
                old(self).len - 1
            } else {
                0
            },
    {
        if self.len > 0 {
            self.len = self.len - 1;
        }
    }
}

// ---------------------------------------------------------------------------
// Tool intent in chat-only mode
// ---------------------------------------------------------------------------

/// The phrases that reveal a tool intent, in the order they are tried.
pub open spec fn tool_intent_patterns() -> Seq<Seq<char>> {
    seq![
        "删除"@, "删掉"@, "删去"@, "新建文件"@, "写文件"@, "修改文件"@, "编辑文件"@,
        "查看文件"@, "d盘"@, "d:"@, "e盘"@, "e:"@, "执行命令"@, "运行命令"@,
        "执行脚本"@, "运行脚本"@, "git commit"@, "git push"@, "监控桌面"@, "截屏"@,
        "打开浏览器"@,
    ]
}

/// The intent that a matching phrase stands for.
pub open spec fn intent_category(p: Seq<char>) -> Seq<char> {
    if seq_contains(p, "删除"@) {
        "file_delete"@
    } else if seq_contains(p, "git"@) {
        "git_operation"@
    } else if seq_contains(p, "监控"@) || seq_contains(p, "截屏"@) {
        "desktop_monitor"@
    } else {
        "tool_intent"@
    }
}

/// The intent of the first phrase of `pats` that occurs (lower-cased) in `t`.
pub open spec fn first_intent(t: Seq<char>, pats: Seq<Seq<char>>) -> Option<Seq<char>>
    decreases pats.len(),
{
    if pats.len() == 0 {
        None
    } else if seq_contains(t, lowercase(pats[0])) {
        Some(intent_category(pats[0]))
    } else {
        first_intent(t, pats.drop_first())
    }
}

/// The tool intent found in a message, if any.
pub open spec fn tool_intent_spec(text: Seq<char>) -> Option<Seq<char>> {
    first_intent(lowercase(text), tool_intent_patterns())
}

fn intent_of_pattern(p: &str) -> (r: &'static str)
    ensures
        r@ == intent_category(p@),
{
    let pc = chars_of(p);
    if contains_chars(pc.as_slice(), chars_of("删除").as_slice()) {
        "file_delete"
    } else if contains_chars(pc.as_slice(), chars_of("git").as_slice()) {
        "git_operation"
    } else if contains_chars(pc.as_slice(), chars_of("监控").as_slice()) || contains_chars(
        pc.as_slice(),
        chars_of("截屏").as_slice(),
    ) {
        "desktop_monitor"
    } else {
        "tool_intent"
    }
}

/// Detects a tool intent in a chat-only message: the category of the first
/// listed phrase that the lower-cased text contains.
pub fn detect_tool_intent(text: &str) -> (r: Option<String>)
    ensures
        r matches Some(s) ==> tool_intent_spec(text@) == Some(s@),
        r is None ==> tool_intent_spec(text@) is None,
{
    let pats: Vec<&'static str> = vec![
        "删除", "删掉", "删去", "新建文件", "写文件", "修改文件", "编辑文件",
        "查看文件", "d盘", "d:", "e盘", "e:", "执行命令", "运行命令",
        "执行脚本", "运行脚本", "git commit", "git push", "监控桌面", "截屏",
        "打开浏览器",
    ];
    let ghost all = tool_intent_patterns();
    assert(pats@.map_values(|p: &'static str| p@) =~= all);
    let lower = str_to_lowercase(text);
    let lc = chars_of(lower.as_str());
    let mut i: usize = 0;
    assert(all.subrange(0, all.len() as int) =~= all);
    while i < pats.len()
        invariant
            all == tool_intent_patterns(),
            pats.len() == all.len(),
            forall|k: int| 0 <= k < all.len() ==> (#[trigger] pats@[k])@ == all[k],
            i <= pats.len(),
            lc@ == lowercase(text@),
            first_intent(lc@, all) == first_intent(lc@, all.subrange(i as int, all.len() as int)),
        decreases pats.len() - i,
    {
        let p = pats[i];
        let pl = str_to_lowercase(p);
        let plc = chars_of(pl.as_str());
        assert(all.subrange(i as int, all.len() as int).drop_first() =~= all.subrange(
            i + 1,
            all.len() as int,
        ));
        assert(all.subrange(i as int, all.len() as int)[0] == all[i as int]);
        assert(p@ == all[i as int]);
        if contains_chars(lc.as_slice(), plc.as_slice()) {
            assert(first_intent(lc@, all.subrange(i as int, all.len() as int)) == Some(
                intent_category(all[i as int]),
            ));
            return Some(owned(intent_of_pattern(p)));
        }
        i += 1;
    }
    assert(all.subrange(i as int, all.len() as int).len() == 0);
    None
}

/// The fixed answer to a tool request in chat-only mode.
pub fn chat_only_blocked_response() -> (r: String)
    ensures
        r@ == "当前飞书普通聊天模式不直接执行工具任务。如需处理文件，请发送：/file <任务描述>。删除文件属于高风险操作，需要确认后才能执行。"@,
{
    owned(
        "当前飞书普通聊天模式不直接执行工具任务。如需处理文件，请发送：/file <任务描述>。删除文件属于高风险操作，需要确认后才能执行。",
    )
}

// ---------------------------------------------------------------------------
// Command palette
// ---------------------------------------------------------------------------

/// Whether a message opens the command palette: trimmed, it is "/", one of
/// the slash menu commands, or (lower-cased) one of the menu words.
pub open spec fn menu_trigger_spec(text: Seq<char>) -> bool {
    let t = trim_seq(text);
    let l = lowercase(t);
    &&& t.len() > 0
    &&& {
        ||| t == "/"@
        ||| t == "/功能"@
        ||| t == "/菜单"@
        ||| t == "/帮助"@
        ||| t == "/help"@
        ||| l == "菜单"@
        ||| l == "帮助"@
        ||| l == "help"@
        ||| l == "功能"@
        ||| l == "menu"@
        ||| l == "menu_trigger"@
    }
}

/// Law: surrounding whitespace never changes whether a text opens the
/// palette: a text and its trimmed form are triggers alike.
pub proof fn lemma_menu_trigger_ignores_surrounding_space(text: Seq<char>)
    ensures
        menu_trigger_spec(trim_seq(text)) == menu_trigger_spec(text),
{
    crate::text::lemma_trim_idempotent(text);
}

/// Whether the inbound text is a menu trigger that opens the command palette
/// card instead of going to chat-only or tool mode.
pub fn is_menu_trigger(text: &str) -> (r: bool)
    ensures
        r == menu_trigger_spec(text@),
{
    let t = str_trim(text);
    let tc = chars_of(t);
    if tc.len() == 0 {
        return false;
    }
    if str_is(t, "/") || str_is(t, "/功能") || str_is(t, "/菜单") || str_is(t, "/帮助") || str_is(
        t,
        "/help",
    ) {
        return true;
    }
    let lower = str_to_lowercase(t);
    let l = lower.as_str();
    str_is(l, "菜单") || str_is(l, "帮助") || str_is(l, "help") || str_is(l, "功能") || str_is(
        l,
        "menu",
    ) || str_is(l, "menu_trigger")
}

/// Whether an inbound text from the webhook opens the command palette
/// instead of going through the chat or tool runtime.
pub fn should_open_palette(text: &str) -> (r: bool)
    ensures
        r == menu_trigger_spec(text@),
{
    is_menu_trigger(text)
}

/// The allowed card action keys.
pub open spec fn allowed_actions() -> Seq<Seq<char>> {
    seq!["monitor_30s"@, "monitor_60s"@, "gateway_status"@, "recent_jobs"@, "help"@]
}

/// Whether a card action callback names an allowed action.
pub fn resolve_card_action(action: &str) -> (r: bool)
    ensures
        r == allowed_actions().contains(action@),
{
    canonical_card_action(action).is_some()
}

/// The canonical (static) action key equal to `action`, if it is allowed.
pub fn canonical_card_action(action: &str) -> (r: Option<&'static str>)
    ensures
        r matches Some(a) ==> a@ == action@ && allowed_actions().contains(action@),
        r is None ==> !allowed_actions().contains(action@),
{
    let all = ALLOWED_CARD_ACTIONS;
    assert(allowed_actions()[0] == "monitor_30s"@);
    assert(allowed_actions()[1] == "monitor_60s"@);
    assert(allowed_actions()[2] == "gateway_status"@);
    assert(allowed_actions()[3] == "recent_jobs"@);
    assert(allowed_actions()[4] == "help"@);
    let mut i: usize = 0;
    while i < 5
        invariant
            i <= 5,
            all@.len() == 5,
            forall|k: int| 0 <= k < 5 ==> (#[trigger] all@[k])@ == allowed_actions()[k],
            forall|k: int| 0 <= k < i ==> allowed_actions()[k] != action@,
        decreases 5 - i,
    {
        let a = all[i];
        if str_is(a, action) {
            return Some(a);
        }
        i += 1;
    }
    None
}

/// Reply text for an unknown action.
pub fn unknown_action_reply() -> (r: String)
    ensures
        r@ == "未知操作，已忽略。请发送 / 打开功能菜单。"@,
{
    owned("未知操作，已忽略。请发送 / 打开功能菜单。")
}

/// A button of the command palette: its label, whether it is a primary
/// button, and the action its click sends back.
#[derive(Debug, Clone, Copy, PartialEq, Eq)]
pub struct PaletteButton {
    pub label: &'static str,
    pub primary: bool,
    pub action: &'static str,
}

/// The Feishu command palette card: a blue header with a title, an intro in
/// Markdown, a note on plain chat, rows of buttons and a closing note.
pub struct CommandPaletteCard {
    pub title: &'static str,
    pub intro: &'static str,
    pub chat_note: &'static str,
    pub rows: Vec<Vec<PaletteButton>>,
    pub note: &'static str,
}

/// A palette button as label, primary flag and action.
pub open spec fn button_view(b: PaletteButton) -> (Seq<char>, bool, Seq<char>) {
    (b.label@, b.primary, b.action@)
}

/// The palette's rows of buttons as label, primary flag and action.
pub open spec fn palette_rows(rows: Seq<Vec<PaletteButton>>) -> Seq<Seq<(Seq<char>, bool, Seq<char>)>> {
    rows.map_values(|r: Vec<PaletteButton>| r@.map_values(|b: PaletteButton| button_view(b)))
}

/// The palette's buttons: the two monitor buttons (primary), then gateway
/// status, recent jobs and help.
pub open spec fn palette_rows_spec() -> Seq<Seq<(Seq<char>, bool, Seq<char>)>> {
    seq![
        seq![("桌面监控 30 秒"@, true, "monitor_30s"@), ("桌面监控 60 秒"@, true, "monitor_60s"@)],
        seq![
            ("Gateway 状态"@, false, "gateway_status"@),
            ("最近任务"@, false, "recent_jobs"@),
            ("帮助说明"@, false, "help"@),
        ],
    ]
}

/// The command palette card.
pub fn build_command_palette_card() -> (r: CommandPaletteCard)
    ensures
        r.title@ == "OmniNova Agent 功能菜单"@,
        r.intro@ == "请选择要执行的操作。普通聊天可以直接发送文字；工具任务请使用按钮或 slash 命令。"@,
        r.chat_note@ == "🟢 普通聊天说明"@,
        palette_rows(r.rows@) == palette_rows_spec(),
        r.note@ == "高风险工具不在普通聊天中直接执行。"@,
{
    let mut first: Vec<PaletteButton> = Vec::new();
    first.push(PaletteButton { label: "桌面监控 30 秒", primary: true, action: "monitor_30s" });
    first.push(PaletteButton { label: "桌面监控 60 秒", primary: true, action: "monitor_60s" });
    let mut second: Vec<PaletteButton> = Vec::new();
    second.push(PaletteButton { label: "Gateway 状态", primary: false, action: "gateway_status" });
    second.push(PaletteButton { label: "最近任务", primary: false, action: "recent_jobs" });
    second.push(PaletteButton { label: "帮助说明", primary: false, action: "help" });
    let mut rows: Vec<Vec<PaletteButton>> = Vec::new();
    rows.push(first);
    rows.push(second);
    let ghost v = palette_rows(rows@);
    assert(v[0] =~= palette_rows_spec()[0]);
    assert(v[1] =~= palette_rows_spec()[1]);
    assert(v =~= palette_rows_spec());
    CommandPaletteCard {
        title: "OmniNova Agent 功能菜单",
        intro: "请选择要执行的操作。普通聊天可以直接发送文字；工具任务请使用按钮或 slash 命令。",
        chat_note: "🟢 普通聊天说明",
        rows,
        note: "高风险工具不在普通聊天中直接执行。",
    }
}

/// Law: every button of the command palette sends an allowed card action,
/// and every allowed action has a button.
pub proof fn lemma_palette_actions_allowed()
    ensures
        forall|i: int, j: int|
            0 <= i < palette_rows_spec().len() && 0 <= j < palette_rows_spec()[i].len()
                ==> allowed_actions().contains(#[trigger] palette_rows_spec()[i][j].2),
        forall|a: Seq<char>|
            #[trigger] allowed_actions().contains(a) ==> exists|i: int, j: int|
                0 <= i < palette_rows_spec().len() && 0 <= j < palette_rows_spec()[i].len()
                    && palette_rows_spec()[i][j].2 == a,
{
    let p = palette_rows_spec();
    let al = allowed_actions();
    assert(al[0] == p[0][0].2);
    assert(al[1] == p[0][1].2);
    assert(al[2] == p[1][0].2);
    assert(al[3] == p[1][1].2);
    assert(al[4] == p[1][2].2);
    assert forall|i: int, j: int| 0 <= i < p.len() && 0 <= j < p[i].len() implies al.contains(
        #[trigger] p[i][j].2,
    ) by {
        if i == 0 && j == 0 {
            assert(al[0] == p[i][j].2);
        } else if i == 0 {
            assert(al[1] == p[i][j].2);
        } else if j == 0 {
            assert(al[2] == p[i][j].2);
        } else if j == 1 {
            assert(al[3] == p[i][j].2);
        } else {
            assert(al[4] == p[i][j].2);
        }
    }
    assert forall|a: Seq<char>| #[trigger] al.contains(a) implies exists|i: int, j: int|
        0 <= i < p.len() && 0 <= j < p[i].len() && p[i][j].2 == a by {
        let k = choose|k: int| 0 <= k < al.len() && al[k] == a;
        if k == 0 {
            assert(p[0][0].2 == a);
        } else if k == 1 {
            assert(p[0][1].2 == a);
        } else if k == 2 {
            assert(p[1][0].2 == a);
        } else if k == 3 {
            assert(p[1][1].2 == a);
        } else {
            assert(p[1][2].2 == a);
        }
    }
}

/// The help text.
pub open spec fn help_text_spec() -> Seq<char> {
    "OmniNova Agent 使用帮助\n\n"@ + "普通聊天：直接发消息，比如“你好”。\n"@
        + "工具任务：使用 /monitor 桌面 30秒 / /monitor 桌面 60秒，或点击功能菜单中的按钮。\n"@
        + "功能菜单：发送 / 或 菜单 / help / 帮助 / 功能。\n"@
        + "安全说明：高风险工具默认不在飞书普通聊天中直接执行。\n"@
}

/// Help / usage reply text.
pub fn help_reply() -> (r: String)
    ensures
        r@ == help_text_spec(),
{
    let mut s = String::new();
    push_str(&mut s, "OmniNova Agent 使用帮助\n\n");
    push_str(&mut s, "普通聊天：直接发消息，比如“你好”。\n");
    push_str(&mut s, "工具任务：使用 /monitor 桌面 30秒 / /monitor 桌面 60秒，或点击功能菜单中的按钮。\n");
    push_str(&mut s, "功能菜单：发送 / 或 菜单 / help / 帮助 / 功能。\n");
    push_str(&mut s, "安全说明：高风险工具默认不在飞书普通聊天中直接执行。\n");
    assert(s@ =~= help_text_spec());
    s
}

/// The progress reply for a long-running tool command.
pub open spec fn progress_reply_spec(command: Seq<char>) -> Seq<char> {
    if command == "/monitor"@ {
        "已收到监控任务，正在执行。完成后我会在这里返回结果。"@
    } else if command == "/run"@ {
        "已收到执行命令，正在运行。完成后我会返回结果。"@
    } else {
        "已收到任务，正在处理中。"@
    }
}

/// Progress reply for a long-running tool-mode task.
pub fn progress_reply_for_command(command: &str) -> (r: String)
    ensures
        r@ == progress_reply_spec(command@),
{
    if str_is(command, "/monitor") {
        owned("已收到监控任务，正在执行。完成后我会在这里返回结果。")
    } else if str_is(command, "/run") {
        owned("已收到执行命令，正在运行。完成后我会返回结果。")
    } else {
        owned("已收到任务，正在处理中。")
    }
}

/// Reply to a task that timed out.
pub fn timeout_reply() -> (r: String)
    ensures
        r@ == "任务执行超时，当前未完成。请缩短任务范围后重试；如果是监控任务，建议使用较短时长，例如：/monitor 桌面 30 秒。"@,
{
    owned(
        "任务执行超时，当前未完成。请缩短任务范围后重试；如果是监控任务，建议使用较短时长，例如：/monitor 桌面 30 秒。",
    )
}

/// Reply to a task that failed in the runtime.
pub fn runtime_error_reply() -> (r: String)
    ensures
        r@ == "任务执行失败，未完成操作。请稍后重试，或在桌面端查看详细日志。"@,
{
    owned("任务执行失败，未完成操作。请稍后重试，或在桌面端查看详细日志。")
}

// ---------------------------------------------------------------------------
// Slash commands and the shell guard
// ---------------------------------------------------------------------------

/// The slash command at the start of a message: its trimmed text starts with
/// '/', and the command is its first whitespace-separated word.
pub open spec fn slash_command_spec(text: Seq<char>) -> Option<Seq<char>> {
    let t = trim_seq(text);
    if t.len() > 0 && t[0] == '/' {
        first_word(t)
    } else {
        None
    }
}

/// Extracts the slash command from a message.
pub fn extract_slash_command(text: &str) -> (r: Option<String>)
    ensures
        r matches Some(s) ==> slash_command_spec(text@) == Some(s@),
        r is None ==> slash_command_spec(text@) is None,
{
    let t = crate::text::trimmed_chars(text);
    if t.len() > 0 && t[0] == '/' {
        first_word_of(t.as_slice())
    } else {
        None
    }
}

/// The first whitespace-separated word of a character sequence.
pub fn first_word_of(s: &[char]) -> (r: Option<String>)
    ensures
        r matches Some(w) ==> first_word(s@) == Some(w@),
        r is None ==> first_word(s@) is None,
{
    let a = crate::text::skip_ws_exec(s, 0);
    if a < s.len() {
        let b = crate::text::skip_word_exec(s, a);
        let mut w = String::new();
        crate::text::push_range(&mut w, s, a, b);
        assert(w@ =~= s@.subrange(a as int, b as int));
        Some(w)
    } else {
        None
    }
}

/// The guard's verdict on a shell command: `None` to run it, or the message
/// that refuses it.
pub open spec fn shell_guard_spec(command: Seq<char>) -> Option<Seq<char>> {
    let t = trim_seq(lowercase(command));
    if seq_starts_with(t, "test-path"@) || seq_starts_with(t, "read-host"@) || seq_starts_with(
        t,
        "confirm"@,
    ) || seq_starts_with(t, "get-credential"@) {
        let w = match first_word(command) {
            Some(w) => w,
            None => command,
        };
        Some("命令包含交互式提示，已拒绝执行: "@ + w)
    } else if seq_contains(t, "请为以下参数提供值"@) || seq_contains(
        t,
        "supply values for the following parameters"@,
    ) || (seq_contains(t, "cmdlet"@) && seq_contains(t, "interactive"@)) {
        Some("检测到交互式 PowerShell 命令，已拒绝执行"@)
    } else if first_word(command) is Some && (lowercase(first_word(command)->0) == "test-path"@
        || lowercase(first_word(command)->0) == "test-path.exe"@) && !has_second_word(command) {
        Some("Test-Path 命令缺少路径参数，已拒绝执行"@)
    } else {
        None
    }
}

/// Shell command guard: refuses commands that would prompt for interactive
/// input, PowerShell parameter prompts, and a bare `Test-Path`.
pub fn validate_shell_command(command: &str) -> (r: Result<(), String>)
    ensures
        r is Ok <==> shell_guard_spec(command@) is None,
        r matches Err(e) ==> shell_guard_spec(command@) == Some(e@),
{
    let lower = str_to_lowercase(command);
    let t = crate::text::trimmed_chars(lower.as_str());
    let ts = t.as_slice();
    let cc = chars_of(command);
    if starts_with_lit(ts, "test-path") || starts_with_lit(ts, "read-host") || starts_with_lit(
        ts,
        "confirm",
    ) || starts_with_lit(ts, "get-credential") {
        let mut msg = owned("命令包含交互式提示，已拒绝执行: ");
        match first_word_of(cc.as_slice()) {
            Some(w) => push_str(&mut msg, w.as_str()),
            None => push_str(&mut msg, command),
        }
        return Err(msg);
    }
    if contains_lit(ts, "请为以下参数提供值") || contains_lit(
        ts,
        "supply values for the following parameters",
    ) || (contains_lit(ts, "cmdlet") && contains_lit(ts, "interactive")) {
        return Err(owned("检测到交互式 PowerShell 命令，已拒绝执行"));
    }
    match first_word_of(cc.as_slice()) {
        Some(first) => {
            let fl = str_to_lowercase(first.as_str());
            if str_is(fl.as_str(), "test-path") || str_is(fl.as_str(), "test-path.exe") {
                if !second_word_exists(cc.as_slice()) {
                    return Err(owned("Test-Path 命令缺少路径参数，已拒绝执行"));
                }
            }
        },
        None => {},
    }
    Ok(())
}

/// Whether the characters start with the literal.
pub fn starts_with_lit(s: &[char], lit: &str) -> (r: bool)
    ensures
        r == seq_starts_with(s@, lit@),
{
    let l = chars_of(lit);
    crate::text::occurs_at_exec(s, l.as_slice(), 0)
}

fn contains_lit(s: &[char], lit: &str) -> (r: bool)
    ensures
        r == seq_contains(s@, lit@),
{
    let l = chars_of(lit);
    contains_chars(s, l.as_slice())
}

fn second_word_exists(s: &[char]) -> (r: bool)
    ensures
        r == has_second_word(s@),
{
    let a = crate::text::skip_ws_exec(s, 0);
    if a < s.len() {
        let b = crate::text::skip_word_exec(s, a);
        let c = crate::text::skip_ws_exec(s, b);
        c < s.len()
    } else {
        false
    }
}

// ---------------------------------------------------------------------------
// Monitor duration
// ---------------------------------------------------------------------------

/// Whether `c` is an ASCII digit.
pub open spec fn is_digit(c: char) -> bool {
    '0' <= c && c <= '9'
}

/// The first position at or after `i` that is not an ASCII digit.
pub open spec fn digits_end(s: Seq<char>, i: int) -> int
    decreases s.len() - i,
{
    if i < s.len() && is_digit(s[i]) {
        digits_end(s, i + 1)
    } else {
        i
    }
}

/// The value of a run of ASCII digits.
pub open spec fn digits_value(s: Seq<char>) -> nat
    decreases s.len(),
{
    if s.len() == 0 {
        0
    } else {
        digits_value(s.drop_last()) * 10 + ((s.last() as u32) - 48) as nat
    }
}

/// Lemma: `digits_end` stays within bounds and passes over digits only.
pub proof fn lemma_digits_end(s: Seq<char>, i: int)
    requires
        0 <= i <= s.len(),
    ensures
        i <= digits_end(s, i) <= s.len(),
        forall|k: int| i <= k < digits_end(s, i) ==> is_digit(#[trigger] s[k]),
    decreases s.len() - i,
{
    if i < s.len() && is_digit(s[i]) {
        lemma_digits_end(s, i + 1);
    }
}

/// The minutes and seconds that a lower-cased message names, scanning from
/// position `i` with the values found so far. A number (that fits in `u64`)
/// followed, after optional whitespace, by '分' sets the minutes; by '秒', or
/// by 's' after whitespace, it sets the seconds; a later unit overrides an
/// earlier one.
pub open spec fn scan_units(c: Seq<char>, i: int, mins: nat, secs: nat) -> (nat, nat)
    decreases c.len() - i,
{
    if i < 0 || i >= c.len() {
        (mins, secs)
    } else {
        let j = digits_end(c, i);
        proof {
            lemma_digits_end(c, i);
        }
        if j > i {
            let v = digits_value(c.subrange(i, j));
            if v <= u64::MAX {
                let k = skip_ws(c, j);
                proof {
                    crate::text::lemma_skip_ws(c, j);
                }
                if k < c.len() && c[k] == '分' {
                    scan_units(c, k + 1, v, secs)
                } else if k < c.len() && k > 0 && c[k - 1] != '分' && c[k] == '秒' {
                    scan_units(c, k + 1, mins, v)
                } else if k < c.len() && k > 0 && !is_digit(c[k - 1]) && c[k] == 's' {
                    scan_units(c, k + 1, mins, v)
                } else {
                    scan_units(c, j, mins, secs)
                }
            } else {
                scan_units(c, i + 1, mins, secs)
            }
        } else {
            scan_units(c, i + 1, mins, secs)
        }
    }
}

/// The duration in seconds for the given minutes and seconds: 30 when none
/// is named, at most 60.
pub open spec fn duration_from(mins: nat, secs: nat) -> nat {
    let total = mins * 60 + secs;
    if total == 0 {
        DEFAULT_MONITOR_DURATION_SECS as nat
    } else if total > MAX_MONITOR_DURATION_SECS {
        MAX_MONITOR_DURATION_SECS as nat
    } else {
        total
    }
}

/// The monitor duration that a lower-cased message asks for.
pub open spec fn monitor_duration_spec(lower: Seq<char>) -> nat {
    let u = scan_units(lower, 0, 0, 0);
    duration_from(u.0, u.1)
}

/// Whether the total `minutes * 60 + seconds` of a lower-cased message fits
/// in `u64`.
pub open spec fn duration_fits(lower: Seq<char>) -> bool {
    let u = scan_units(lower, 0, 0, 0);
    u.0 * 60 + u.1 <= u64::MAX
}

fn digits_end_exec(s: &[char], i: usize) -> (r: usize)
    requires
        i <= s.len(),
    ensures
        r as int == digits_end(s@, i as int),
        i <= r <= s.len(),
{
    proof {
        lemma_digits_end(s@, i as int);
    }
    let mut k = i;
    while k < s.len() && '0' <= s[k] && s[k] <= '9'
        invariant
            i <= k <= s.len(),
            digits_end(s@, i as int) == digits_end(s@, k as int),
        decreases s.len() - k,
    {
        k += 1;
    }
    k
}

proof fn lemma_digits_step(s: Seq<char>, i: int, k: int)
    requires
        0 <= i <= k < s.len(),
    ensures
        digits_value(s.subrange(i, k + 1)) == digits_value(s.subrange(i, k)) * 10 + ((s[k] as u32)
            - 48) as nat,
{
    assert(s.subrange(i, k + 1).drop_last() =~= s.subrange(i, k));
}

/// The value of the digit run `s[i..j]`, with `false` when it exceeds `u64`.
fn digits_value_exec(s: &[char], i: usize, j: usize) -> (r: (u64, bool))
    requires
        i <= j <= s.len(),
        forall|k: int| i <= k < j ==> is_digit(#[trigger] s@[k]),
    ensures
        r.1 <==> digits_value(s@.subrange(i as int, j as int)) <= u64::MAX,
        r.1 ==> r.0 == digits_value(s@.subrange(i as int, j as int)),
{
    let mut v: u64 = 0;
    let mut ok = true;
    let mut k = i;
    assert(s@.subrange(i as int, i as int).len() == 0);
    while k < j
        invariant
            i <= k <= j <= s.len(),
            forall|t: int| i <= t < j ==> is_digit(#[trigger] s@[t]),
            ok ==> v == digits_value(s@.subrange(i as int, k as int)),
            !ok ==> digits_value(s@.subrange(i as int, k as int)) > u64::MAX,
        decreases j - k,
    {
        assert(is_digit(s@[k as int]));
        let d: u64 = (s[k] as u32 - 48) as u64;
        proof {
            lemma_digits_step(s@, i as int, k as int);
        }
        let ghost prev = digits_value(s@.subrange(i as int, k as int));
        if ok {
            if v > (u64::MAX - d) / 10 {
                assert(v * 10 + d > u64::MAX) by (nonlinear_arith)
                    requires
                        v > (u64::MAX - d) / 10,
                        d <= 9,
                ;
                ok = false;
            } else {
                assert(v * 10 + d <= u64::MAX) by (nonlinear_arith)
                    requires
                        v <= (u64::MAX - d) / 10,
                        d <= 9,
                ;
                v = v * 10 + d;
            }
        } else {
            assert(prev * 10 + d >= prev) by (nonlinear_arith)
                requires
                    prev >= 0,
                    d >= 0,
            ;
        }
        k += 1;
    }
    (v, ok)
}

/// The minutes and seconds named in a lower-cased message.
pub fn monitor_duration_units(c: &[char]) -> (r: (u64, u64))
    ensures
        r.0 as nat == scan_units(c@, 0, 0, 0).0,
        r.1 as nat == scan_units(c@, 0, 0, 0).1,
{
    let mut mins: u64 = 0;
    let mut secs: u64 = 0;
    let mut i: usize = 0;
    while i < c.len()
        invariant
            i <= c.len(),
            scan_units(c@, i as int, mins as nat, secs as nat) == scan_units(c@, 0, 0, 0),
        decreases c.len() - i,
    {
        let j = digits_end_exec(c, i);
        proof {
            lemma_digits_end(c@, i as int);
        }
        if j > i {
            let (v, ok) = digits_value_exec(c, i, j);
            if ok {
                let k = crate::text::skip_ws_exec(c, j);
                if k < c.len() && c[k] == '分' {
                    mins = v;
                    i = k + 1;
                } else if k < c.len() && k > 0 && c[k - 1] != '分' && c[k] == '秒' {
                    secs = v;
                    i = k + 1;
                } else if k < c.len() && k > 0 && !('0' <= c[k - 1] && c[k - 1] <= '9') && c[k]
                    == 's' {
                    secs = v;
                    i = k + 1;
                } else {
                    i = j;
                }
            } else {
                i = i + 1;
            }
        } else {
            i = i + 1;
        }
    }
    (mins, secs)
}

/// Parses the monitor duration from a message: the named minutes and seconds
/// in total, 30 when none is named, capped at 60.
pub fn parse_monitor_duration_from_text(text: &str) -> (r: u64)
    requires
        duration_fits(lowercase(text@)),
    ensures
        r as nat == monitor_duration_spec(lowercase(text@)),
        1 <= r <= MAX_MONITOR_DURATION_SECS,
{
    let lower = str_to_lowercase(text);
    let c = chars_of(lower.as_str());
    let (mins, secs) = monitor_duration_units(c.as_slice());
    let total = mins * 60 + secs;
    if total == 0 {
        DEFAULT_MONITOR_DURATION_SECS
    } else if total > MAX_MONITOR_DURATION_SECS {
        MAX_MONITOR_DURATION_SECS
    } else {
        total
    }
}

/// The monitor duration of a message, or `None` when the named minutes and
/// seconds add up past `u64` (where the plain parser would overflow).
pub fn checked_monitor_duration(text: &str) -> (r: Option<u64>)
    ensures
        r is Some <==> duration_fits(lowercase(text@)),
        r matches Some(d) ==> d as nat == monitor_duration_spec(lowercase(text@)),
{
    let lower = str_to_lowercase(text);
    let c = chars_of(lower.as_str());
    let (mins, secs) = monitor_duration_units(c.as_slice());
    if mins <= (u64::MAX - secs) / 60 {
        assert(mins * 60 + secs <= u64::MAX) by (nonlinear_arith)
            requires
                mins <= (u64::MAX - secs) / 60,
        ;
        Some(parse_monitor_duration_from_text(text))
    } else {
        assert(mins * 60 + secs > u64::MAX) by (nonlinear_arith)
            requires
                mins > (u64::MAX - secs) / 60,
        ;
        None
    }
}

// ---------------------------------------------------------------------------
// Timestamps and the recent-jobs text
// ---------------------------------------------------------------------------

/// Integer division rounding toward zero (Rust's `/`), for `b > 0`.
pub open spec fn tdiv(a: int, b: int) -> int {
    if a >= 0 {
        a / b
    } else {
        -((-a) / b)
    }
}

/// The remainder of `tdiv` (Rust's `%`), for `b > 0`.
pub open spec fn trem(a: int, b: int) -> int {
    a - b * tdiv(a, b)
}

/// Rust's `/` on `i64` for a positive divisor.
fn div_i64(a: i64, b: i64) -> (q: i64)
    requires
        b > 1,
    ensures
        q == tdiv(a as int, b as int),
{
    if a >= 0 {
        (a as u64 / b as u64) as i64
    } else {
        let ua: u64 = if a == i64::MIN {
            9223372036854775808u64
        } else {
            (-a) as u64
        };
        assert(ua as int == -(a as int));
        let q = ua / b as u64;
        assert(q <= ua / 2) by (nonlinear_arith)
            requires
                q == ua / (b as u64),
                b > 1,
        ;
        -(q as i64)
    }
}

/// Rust's `%` on `i64` for a positive divisor.
fn rem_i64(a: i64, b: i64) -> (r: i64)
    requires
        b > 1,
    ensures
        r == trem(a as int, b as int),
        -b < r < b,
{
    let q = div_i64(a, b);
    proof {
        let ia = a as int;
        let ib = b as int;
        if ia >= 0 {
            assert(0 <= ia - ib * (ia / ib) < ib) by (nonlinear_arith)
                requires
                    ia >= 0,
                    ib > 0,
            ;
        } else {
            assert(0 <= (-ia) - ib * ((-ia) / ib) < ib) by (nonlinear_arith)
                requires
                    ia < 0,
                    ib > 0,
            ;
            assert(ib * (-((-ia) / ib)) == -(ib * ((-ia) / ib))) by (nonlinear_arith);
        }
    }
    a - b * q
}

/// Whether a year is a leap year.
pub open spec fn leap_year(y: int) -> bool {
    (y % 4 == 0 && y % 100 != 0) || y % 400 == 0
}

/// The number of days in a year.
pub open spec fn days_in_year(y: int) -> int {
    if leap_year(y) {
        366
    } else {
        365
    }
}

/// The number of days in month `i` (0-based) of a year.
pub open spec fn days_in_month(i: int, leap: bool) -> int {
    if i == 1 {
        if leap {
            29
        } else {
            28
        }
    } else if i == 3 || i == 5 || i == 8 || i == 10 {
        30
    } else {
        31
    }
}

/// The year reached from `y`, and the days left in it, after taking whole
/// years off `rem` days.
pub open spec fn year_split(rem: int, y: int) -> (int, int)
    decreases rem,
{
    if rem >= days_in_year(y) {
        year_split(rem - days_in_year(y), y + 1)
    } else {
        (y, rem)
    }
}

/// The month (1-based) of day `rem` of a year, and the day's 0-based index in
/// it, taking whole months off from month `i` on (month 1 when they run out).
pub open spec fn month_split(rem: int, leap: bool, i: int) -> (int, int)
    decreases 12 - i,
{
    if i >= 12 {
        (1, rem)
    } else if rem < days_in_month(i, leap) {
        (i + 1, rem)
    } else {
        month_split(rem - days_in_month(i, leap), leap, i + 1)
    }
}

/// `yyyy-MM-dd HH:mm:ss` of a Unix time in milliseconds (UTC), counted with
/// truncating division from 1970-01-01.
pub open spec fn iso_ms_spec(ts: int) -> Seq<char> {
    let secs = tdiv(ts, 1000);
    let days = tdiv(secs, 86400);
    let sid = trem(secs, 86400);
    let hours = tdiv(sid, 3600);
    let mins = tdiv(trem(sid, 3600), 60);
    let s = trem(sid, 60);
    let ys = year_split(days, 1970);
    let ms = month_split(ys.1, leap_year(ys.0), 0);
    padded(ys.0, 4) + "-"@ + padded(ms.0, 2) + "-"@ + padded(ms.1 + 1, 2) + " "@ + padded(hours, 2)
        + ":"@ + padded(mins, 2) + ":"@ + padded(s, 2)
}

/// The days of months `i` to 12 (0-based) of a year.
pub open spec fn days_from_month(i: int, leap: bool) -> int
    decreases 12 - i,
{
    if i >= 12 {
        0
    } else {
        days_in_month(i, leap) + days_from_month(i + 1, leap)
    }
}

proof fn lemma_year_split_bounds(rem: int, y: int)
    requires
        rem >= 0,
    ensures
        year_split(rem, y).0 >= y,
        0 <= year_split(rem, y).1 < days_in_year(year_split(rem, y).0),
    decreases rem,
{
    if rem >= days_in_year(y) {
        lemma_year_split_bounds(rem - days_in_year(y), y + 1);
    }
}

proof fn lemma_month_split_bounds(rem: int, leap: bool, i: int)
    requires
        0 <= i <= 12,
        0 <= rem < days_from_month(i, leap),
    ensures
        i + 1 <= month_split(rem, leap, i).0 <= 12,
        0 <= month_split(rem, leap, i).1 < days_in_month(month_split(rem, leap, i).0 - 1, leap),
    decreases 12 - i,
{
    if i < 12 && rem >= days_in_month(i, leap) {
        lemma_month_split_bounds(rem - days_in_month(i, leap), leap, i + 1);
    }
}

/// Law: from the epoch on, the formatted time is a valid calendar time: a
/// year from 1970, a month from 1 to 12, a day within its month, and a time
/// of day within 24 hours.
pub proof fn lemma_iso_fields_valid(ts: int)
    requires
        ts >= 0,
    ensures
        ({
            let secs = tdiv(ts, 1000);
            let sid = trem(secs, 86400);
            let ys = year_split(tdiv(secs, 86400), 1970);
            let ms = month_split(ys.1, leap_year(ys.0), 0);
            &&& ys.0 >= 1970
            &&& 1 <= ms.0 <= 12
            &&& 1 <= ms.1 + 1 <= days_in_month(ms.0 - 1, leap_year(ys.0))
            &&& 0 <= tdiv(sid, 3600) < 24
            &&& 0 <= tdiv(trem(sid, 3600), 60) < 60
            &&& 0 <= trem(sid, 60) < 60
        }),
{
    let secs = tdiv(ts, 1000);
    assert(secs >= 0) by (nonlinear_arith)
        requires
            secs == ts / 1000,
            ts >= 0,
    ;
    let days = tdiv(secs, 86400);
    assert(days >= 0) by (nonlinear_arith)
        requires
            days == secs / 86400,
            secs >= 0,
    ;
    let sid = trem(secs, 86400);
    assert(0 <= sid < 86400) by (nonlinear_arith)
        requires
            sid == secs - 86400 * (secs / 86400),
            secs >= 0,
    ;
    assert(0 <= sid / 3600 < 24) by (nonlinear_arith)
        requires
            0 <= sid < 86400,
    ;
    assert(0 <= sid - 3600 * (sid / 3600) < 3600) by (nonlinear_arith)
        requires
            0 <= sid,
    ;
    let r3600 = trem(sid, 3600);
    assert(0 <= r3600 / 60 < 60) by (nonlinear_arith)
        requires
            0 <= r3600 < 3600,
    ;
    assert(0 <= sid - 60 * (sid / 60) < 60) by (nonlinear_arith)
        requires
            0 <= sid,
    ;
    lemma_year_split_bounds(days, 1970);
    let ys = year_split(days, 1970);
    let leap = leap_year(ys.0);
    assert(days_from_month(0, leap) == days_in_year(ys.0)) by {
        reveal_with_fuel(days_from_month, 13);
    }
    lemma_month_split_bounds(ys.1, leap, 0);
}

/// Whether a year is a leap year.
pub fn is_leap_year_int(year: i64) -> (r: bool)
    ensures
        r == leap_year(year as int),
{
    let m4 = rem_i64(year, 4);
    let m100 = rem_i64(year, 100);
    let m400 = rem_i64(year, 400);
    proof {
        let y = year as int;
        assert(trem(y, 4) == 0 <==> y % 4 == 0) by (nonlinear_arith);
        assert(trem(y, 100) == 0 <==> y % 100 == 0) by (nonlinear_arith);
        assert(trem(y, 400) == 0 <==> y % 400 == 0) by (nonlinear_arith);
    }
    (m4 == 0 && m100 != 0) || m400 == 0
}

fn days_in_year_exec(y: i64) -> (r: i64)
    ensures
        r == days_in_year(y as int),
{
    if is_leap_year_int(y) {
        366
    } else {
        365
    }
}

fn days_in_month_exec(i: usize, leap: bool) -> (r: i64)
    ensures
        r == days_in_month(i as int, leap),
{
    if i == 1 {
        if leap {
            29
        } else {
            28
        }
    } else if i == 3 || i == 5 || i == 8 || i == 10 {
        30
    } else {
        31
    }
}

/// Formats a Unix time in milliseconds as `yyyy-MM-dd HH:mm:ss` (UTC).
pub fn chrono_timestamp_to_iso_ms(ts: i64) -> (r: String)
    ensures
        r@ == iso_ms_spec(ts as int),
{
    let secs = div_i64(ts, 1000);
    let days_since_epoch = div_i64(secs, 86400);
    let secs_in_day = rem_i64(secs, 86400);
    let hours = div_i64(secs_in_day, 3600);
    let mins = div_i64(rem_i64(secs_in_day, 3600), 60);
    let s = rem_i64(secs_in_day, 60);
    proof {
        assert(tdiv(secs as int, 86400) <= 9223372036854775807int / 86400) by (nonlinear_arith)
            requires
                secs <= 9223372036854775807,
        ;
        assert(tdiv(secs as int, 86400) >= -9223372036854775807int / 86400 - 1) by (nonlinear_arith)
            requires
                secs >= -9223372036854775808,
        ;
    }
    let mut remaining_days = days_since_epoch;
    let mut year: i64 = 1970;
    while remaining_days >= days_in_year_exec(year)
        invariant
            year >= 1970,
            remaining_days <= days_since_epoch,
            days_since_epoch <= 9223372036854775807int / 86400,
            year - 1970 <= days_since_epoch - remaining_days,
            days_since_epoch >= -9223372036854775807int / 86400 - 1,
            remaining_days >= 0 || remaining_days == days_since_epoch,
            year_split(remaining_days as int, year as int) == year_split(
                days_since_epoch as int,
                1970,
            ),
        decreases remaining_days,
    {
        let d = days_in_year_exec(year);
        remaining_days = remaining_days - d;
        year = year + 1;
    }
    let leap = is_leap_year_int(year);
    let ghost ys = year_split(days_since_epoch as int, 1970);
    assert(ys == (year as int, remaining_days as int));
    let mut month: usize = 1;
    let mut i: usize = 0;
    let mut done = false;
    while i < 12 && !done
        invariant
            i <= 12,
            remaining_days <= days_since_epoch,
            days_since_epoch <= 9223372036854775807int / 86400,
            remaining_days >= -9223372036854775807int / 86400 - 1,
            done ==> month_split(ys.1, leap, 0) == (month as int, remaining_days as int),
            !done ==> month_split(ys.1, leap, 0) == month_split(
                remaining_days as int,
                leap,
                i as int,
            ),
            !done ==> month == 1,
            1 <= month <= 12,
            leap == leap_year(ys.0),
        decreases 12 - i + (if done { 0int } else { 1int }),
    {
        let d = days_in_month_exec(i, leap);
        if remaining_days < d {
            month = i + 1;
            done = true;
        } else {
            remaining_days = remaining_days - d;
            i = i + 1;
        }
    }
    let day = remaining_days + 1;
    let mut out = String::new();
    push_padded(&mut out, year, 4);
    push_str(&mut out, "-");
    push_padded(&mut out, month as i64, 2);
    push_str(&mut out, "-");
    push_padded(&mut out, day, 2);
    push_str(&mut out, " ");
    push_padded(&mut out, hours, 2);
    push_str(&mut out, ":");
    push_padded(&mut out, mins, 2);
    push_str(&mut out, ":");
    push_padded(&mut out, s, 2);
    assert(out@ =~= iso_ms_spec(ts as int));
    out
}

/// The short form of an id for display: the id itself when it has at most
/// `max` characters, else '…' and its last `max - 1` characters.
pub open spec fn short_id_spec(s: Seq<char>, max: nat) -> Seq<char> {
    if s.len() <= max {
        s
    } else {
        let keep: int = if max >= 1 {
            max - 1
        } else {
            0
        };
        seq!['…'] + s.subrange(s.len() - keep, s.len() as int)
    }
}

/// Shortens an id for display, keeping its tail for cross-reference with logs.
pub fn short_id(s: &str, max: usize) -> (r: String)
    ensures
        r@ == short_id_spec(s@, max as nat),
        max >= 1 ==> r@.len() <= max,
{
    let c = chars_of(s);
    if c.len() <= max {
        owned(s)
    } else {
        let keep: usize = if max >= 1 {
            max - 1
        } else {
            0
        };
        let skip = c.len() - keep;
        let mut out = owned("…");
        proof {
            reveal_strlit("…");
        }
        crate::text::push_range(&mut out, c.as_slice(), skip, c.len());
        assert(out@ =~= short_id_spec(s@, max as nat));
        out
    }
}

/// Compact summary of a job for the recent-jobs reply.
#[derive(Debug, Clone)]
pub struct RecentJobLine {
    pub job_id_short: String,
    pub mode: String,
    pub status: String,
    pub attempts: i64,
    pub error_code: Option<String>,
    pub created_at: String,
    pub completed_at: Option<String>,
}

/// The text of an optional string, or "-".
pub open spec fn or_dash(s: Option<String>) -> Seq<char> {
    match s {
        Some(v) => v@,
        None => "-"@,
    }
}

/// One numbered line (with its second, indented line) of the recent-jobs text.
pub open spec fn recent_job_line(number: nat, j: RecentJobLine) -> Seq<char> {
    dec(number) + ". "@ + j.job_id_short@ + " | mode="@ + j.mode@ + " | status="@ + j.status@
        + " | attempts="@ + idec(j.attempts as int) + " | error="@ + or_dash(j.error_code)
        + "\n   created_at="@ + j.created_at@ + " | completed_at="@ + or_dash(j.completed_at)
        + "\n"@
}

/// The lines of the first `k` jobs.
pub open spec fn recent_job_lines(jobs: Seq<RecentJobLine>, k: nat) -> Seq<char>
    decreases k,
{
    if k == 0 {
        seq![]
    } else {
        recent_job_lines(jobs, (k - 1) as nat) + recent_job_line(k, jobs[k - 1])
    }
}

/// How many jobs the recent-jobs reply lists at most.
pub const RECENT_JOBS_SHOWN: usize = 5;

/// The number of jobs the recent-jobs reply lists: at most five.
pub open spec fn shown_jobs(n: nat) -> nat {
    if n <= 5 {
        n
    } else {
        5
    }
}

/// The recent-jobs reply: a note when there are none, else a header with the
/// number of jobs listed and one numbered summary for each of the first
/// (at most five) jobs.
pub open spec fn recent_jobs_reply_spec(jobs: Seq<RecentJobLine>) -> Seq<char> {
    if jobs.len() == 0 {
        "最近 0 条任务：暂无。"@
    } else {
        "最近 "@ + dec(shown_jobs(jobs.len())) + " 条任务（仅摘要，不含 payload）\n\n"@
            + recent_job_lines(jobs, shown_jobs(jobs.len()))
    }
}

fn push_or_dash(s: &mut String, v: &Option<String>)
    ensures
        final(s)@ == old(s)@ + or_dash(*v),
{
    match v {
        Some(x) => push_str(s, x.as_str()),
        None => push_str(s, "-"),
    }
}

fn push_recent_job_line(s: &mut String, number: u64, job: &RecentJobLine)
    ensures
        final(s)@ == old(s)@ + recent_job_line(number as nat, *job),
{
    let ghost start = s@;
    push_dec(s, number);
    push_str(s, ". ");
    push_str(s, job.job_id_short.as_str());
    push_str(s, " | mode=");
    push_str(s, job.mode.as_str());
    push_str(s, " | status=");
    push_str(s, job.status.as_str());
    push_str(s, " | attempts=");
    push_idec(s, job.attempts);
    push_str(s, " | error=");
    push_or_dash(s, &job.error_code);
    let ghost mid = s@;
    assert(mid =~= start + dec(number as nat) + ". "@ + job.job_id_short@ + " | mode="@ + job.mode@
        + " | status="@ + job.status@ + " | attempts="@ + idec(job.attempts as int) + " | error="@
        + or_dash(job.error_code));
    push_str(s, "\n   created_at=");
    push_str(s, job.created_at.as_str());
    push_str(s, " | completed_at=");
    push_or_dash(s, &job.completed_at);
    push_str(s, "\n");
    assert(s@ =~= start + recent_job_line(number as nat, *job));
}

/// Formats recent jobs into a readable text body (summaries only, no
/// payload, at most five jobs).
pub fn recent_jobs_reply_text(jobs: &[RecentJobLine]) -> (r: String)
    ensures
        r@ == recent_jobs_reply_spec(jobs@),
{
    if jobs.len() == 0 {
        return owned("最近 0 条任务：暂无。");
    }
    let n: usize = if jobs.len() <= RECENT_JOBS_SHOWN {
        jobs.len()
    } else {
        RECENT_JOBS_SHOWN
    };
    let mut s = owned("最近 ");
    push_dec(&mut s, n as u64);
    push_str(&mut s, " 条任务（仅摘要，不含 payload）\n\n");
    let ghost header = s@;
    let mut k: usize = 0;
    while k < n
        invariant
            n <= jobs.len(),
            k <= n,
            s@ == header + recent_job_lines(jobs@, k as nat),
        decreases n - k,
    {
        push_recent_job_line(&mut s, (k + 1) as u64, &jobs[k]);
        assert(s@ =~= header + recent_job_lines(jobs@, (k + 1) as nat));
        k += 1;
    }
    s
}

/// Converts a job row into a recent-job summary line: the id shortened to
/// 24 characters and the millisecond times formatted.
pub fn summarize_job_for_card(
    job_id_full: &str,
    mode: &str,
    status: &str,
    attempts: i64,
    error_code: Option<&str>,
    created_at: i64,
    completed_at: Option<i64>,
) -> (r: RecentJobLine)
    ensures
        r.job_id_short@ == short_id_spec(job_id_full@, 24),
        r.mode@ == mode@,
        r.status@ == status@,
        r.attempts == attempts,
        r.error_code matches Some(e) ==> error_code matches Some(c) && e@ == c@,
        r.error_code is None ==> error_code is None,
        r.created_at@ == iso_ms_spec(created_at as int),
        r.completed_at matches Some(c) ==> completed_at matches Some(t) && c@ == iso_ms_spec(t as int),
        r.completed_at is None ==> completed_at is None,
{
    let created = chrono_timestamp_to_iso_ms(created_at);
    let completed = match completed_at {
        Some(t) => Some(chrono_timestamp_to_iso_ms(t)),
        None => None,
    };
    let err = match error_code {
        Some(e) => Some(owned(e)),
        None => None,
    };
    RecentJobLine {
        job_id_short: short_id(job_id_full, 24),
        mode: owned(mode),
        status: owned(status),
        attempts,
        error_code: err,
        created_at: created,
        completed_at: completed,
    }
}

// ---------------------------------------------------------------------------
// Gateway status
// ---------------------------------------------------------------------------

/// `true` or `false`, as `{}` formats a `bool`.
pub open spec fn bool_text(b: bool) -> Seq<char> {
    if b {
        "true"@
    } else {
        "false"@
    }
}

/// The text of an optional string slice, or a default.
pub open spec fn str_or(s: Option<&str>, d: Seq<char>) -> Seq<char> {
    match s {
        Some(v) => v@,
        None => d,
    }
}

/// The Gateway status reply. The security mode defaults to "dev" and the
/// outbound mode to "disabled"; "insecure dev" holds in dev mode with neither
/// the verification token nor the encrypt key configured.
pub open spec fn gateway_status_spec(
    security_mode: Option<&str>,
    verification_token_configured: bool,
    encrypt_key_configured: bool,
    outbound_mode: Option<&str>,
    store_path_exists: bool,
    store_path: Seq<char>,
    pending_jobs: i64,
    pending_outbox: i64,
) -> Seq<char> {
    status_text(
        str_or(security_mode, "dev"@),
        verification_token_configured,
        encrypt_key_configured,
        str_or(outbound_mode, "disabled"@),
        store_path_exists,
        store_path,
        pending_jobs,
        pending_outbox,
    )
}

/// The Gateway status text for a security mode and an outbound mode.
pub open spec fn status_text(
    mode: Seq<char>,
    verification_token_configured: bool,
    encrypt_key_configured: bool,
    outbound_mode: Seq<char>,
    store_path_exists: bool,
    store_path: Seq<char>,
    pending_jobs: i64,
    pending_outbox: i64,
) -> Seq<char> {
    let insecure = mode == "dev"@ && !verification_token_configured && !encrypt_key_configured;
    "Gateway 状态\n\n"@ + "gateway running : true\n"@ + "security_mode   : "@ + mode + "\n"@
        + "insecure dev    : "@ + bool_text(insecure) + "\n"@
        + "verification_token configured : "@ + bool_text(verification_token_configured) + "\n"@
        + "encrypt_key configured : "@ + bool_text(encrypt_key_configured) + "\n"@
        + "outbound_mode   : "@ + outbound_mode + "\n"@ + "store path      : "@
        + store_path + "\n"@ + "store status    : "@ + (if store_path_exists {
        "ok"@
    } else {
        "missing"@
    }) + "\n"@ + "pending jobs    : "@ + idec(pending_jobs as int) + "\n"@ + "pending outbox  : "@
        + idec(pending_outbox as int) + "\n"@
}

fn push_bool(s: &mut String, b: bool)
    ensures
        final(s)@ == old(s)@ + bool_text(b),
{
    if b {
        push_str(s, "true");
    } else {
        push_str(s, "false");
    }
}

/// The Gateway status reply text, from the runtime and security settings.
pub fn gateway_status_reply(
    security_mode: Option<&str>,
    verification_token_configured: bool,
    encrypt_key_configured: bool,
    outbound_mode: Option<&str>,
    store_path_exists: bool,
    store_path: &str,
    pending_jobs: i64,
    pending_outbox: i64,
) -> (r: String)
    ensures
        r@ == gateway_status_spec(
            security_mode,
            verification_token_configured,
            encrypt_key_configured,
            outbound_mode,
            store_path_exists,
            store_path@,
            pending_jobs,
            pending_outbox,
        ),
{
    let mode: &str = match security_mode {
        Some(m) => m,
        None => "dev",
    };
    let insecure = str_is(mode, "dev") && !verification_token_configured && !encrypt_key_configured;
    let outbound: &str = match outbound_mode {
        Some(m) => m,
        None => "disabled",
    };
    let mut s = String::new();
    push_str(&mut s, "Gateway 状态\n\n");
    push_str(&mut s, "gateway running : true\n");
    push_str(&mut s, "security_mode   : ");
    push_str(&mut s, mode);
    push_str(&mut s, "\n");
    push_str(&mut s, "insecure dev    : ");
    push_bool(&mut s, insecure);
    push_str(&mut s, "\n");
    push_str(&mut s, "verification_token configured : ");
    push_bool(&mut s, verification_token_configured);
    push_str(&mut s, "\n");
    push_str(&mut s, "encrypt_key configured : ");
    push_bool(&mut s, encrypt_key_configured);
    push_str(&mut s, "\n");
    push_str(&mut s, "outbound_mode   : ");
    push_str(&mut s, outbound);
    push_str(&mut s, "\n");
    push_str(&mut s, "store path      : ");
    push_str(&mut s, store_path);
    push_str(&mut s, "\n");
    push_str(&mut s, "store status    : ");
    if store_path_exists {
        push_str(&mut s, "ok");
    } else {
        push_str(&mut s, "missing");
    }
    push_str(&mut s, "\n");
    push_str(&mut s, "pending jobs    : ");
    push_idec(&mut s, pending_jobs);
    push_str(&mut s, "\n");
    push_str(&mut s, "pending outbox  : ");
    push_idec(&mut s, pending_outbox);
    push_str(&mut s, "\n");
    assert(s@ =~= gateway_status_spec(
        security_mode,
        verification_token_configured,
        encrypt_key_configured,
        outbound_mode,
        store_path_exists,
        store_path@,
        pending_jobs,
        pending_outbox,
    ));
    s
}

/// The Gateway status text for card actions that have no runtime at hand:
/// no store, placeholder path, nothing pending.
pub fn gateway_status_reply_text(
    security_mode: Option<&str>,
    verification_token_configured: bool,
    encrypt_key_configured: bool,
    outbound_mode: Option<&str>,
) -> (r: String)
    ensures
        r@ == gateway_status_spec(
            security_mode,
            verification_token_configured,
            encrypt_key_configured,
            outbound_mode,
            false,
            "(state.sqlite)"@,
            0,
            0,
        ),
{
    gateway_status_reply(
        security_mode,
        verification_token_configured,
        encrypt_key_configured,
        outbound_mode,
        false,
        "(state.sqlite)",
        0,
        0,
    )
}

// ---------------------------------------------------------------------------
// Inbound messages and reply targets
// ---------------------------------------------------------------------------

/// The chat a message belongs to: its session id, else the metadata's
/// `chat_id`, `message_chat_id` or `conversation_id`, in that order.
pub open spec fn chat_id_spec(m: InboundMessage) -> Option<Seq<char>> {
    match m.session_id {
        Some(s) => Some(s@),
        None => if meta_get(m.metadata@, "chat_id"@) is Some {
            meta_get(m.metadata@, "chat_id"@)
        } else if meta_get(m.metadata@, "message_chat_id"@) is Some {
            meta_get(m.metadata@, "message_chat_id"@)
        } else {
            meta_get(m.metadata@, "conversation_id"@)
        },
    }
}

/// Extracts the chat id of an inbound message.
pub fn extract_chat_id(inbound: &InboundMessage) -> (r: Option<String>)
    ensures
        r matches Some(c) ==> chat_id_spec(*inbound) == Some(c@),
        r is None ==> chat_id_spec(*inbound) is None,
{
    match &inbound.session_id {
        Some(s) => Some(s.clone()),
        None => {
            let a = metadata_text(&inbound.metadata, "chat_id");
            if a.is_some() {
                return a;
            }
            let b = metadata_text(&inbound.metadata, "message_chat_id");
            if b.is_some() {
                return b;
            }
            metadata_text(&inbound.metadata, "conversation_id")
        },
    }
}

/// The reply target of an inbound message: its chat (which must be known),
/// the channel named by `channel_name` ("feishu" or "lark", else the
/// message's own), the metadata's `message_id` and the sender.
pub fn build_reply_target(inbound: &InboundMessage, channel_name: &str) -> (r: Option<ReplyTarget>)
    ensures
        r is None <==> chat_id_spec(*inbound) is None,
        r matches Some(t) ==> {
            &&& chat_id_spec(*inbound) == Some(t.chat_id@)
            &&& t.channel == (if channel_name@ == "feishu"@ {
                ChannelKind::Feishu
            } else if channel_name@ == "lark"@ {
                ChannelKind::Lark
            } else {
                inbound.channel
            })
            &&& (t.message_id matches Some(x) ==> meta_get(inbound.metadata@, "message_id"@) == Some(
                x@,
            ))
            &&& (t.message_id is None ==> meta_get(inbound.metadata@, "message_id"@) is None)
            &&& (t.user_id matches Some(u) ==> inbound.user_id matches Some(v) && u@ == v@)
            &&& (t.user_id is None ==> inbound.user_id is None)
        },
{
    let chat_id = match extract_chat_id(inbound) {
        Some(c) => c,
        None => return None,
    };
    let channel = if str_is(channel_name, "feishu") {
        ChannelKind::Feishu
    } else if str_is(channel_name, "lark") {
        ChannelKind::Lark
    } else {
        inbound.channel
    };
    let user_id = match &inbound.user_id {
        Some(u) => Some(u.clone()),
        None => None,
    };
    Some(
        ReplyTarget {
            channel,
            chat_id,
            message_id: metadata_text(&inbound.metadata, "message_id"),
            user_id,
        },
    )
}

// ---------------------------------------------------------------------------
// Monitor results
// ---------------------------------------------------------------------------

/// One desktop screenshot as the monitor reports it.
pub struct CaptureResult {
    pub ok: bool,
    pub file_path: Option<String>,
    pub width: Option<u32>,
    pub height: Option<u32>,
    pub file_size_bytes: Option<u64>,
}

/// Result of the direct monitor runner.
pub enum MonitorRunnerResult {
    /// Both screenshots were captured.
    Success {
        duration_secs: u64,
        start_capture: CaptureResult,
        end_capture: CaptureResult,
        changed: bool,
        elapsed_ms: u64,
    },
    /// No desktop capture backend.
    Unsupported { reason: String },
    /// The monitor failed.
    Failed { error: String },
}

/// The big-endian unsigned 32-bit number in bytes `i` to `i + 3`.
pub open spec fn be_u32(b: Seq<u8>, i: int) -> int {
    b[i] * 16777216 + b[i + 1] * 65536 + b[i + 2] * 256 + b[i + 3]
}

/// The width and height a PNG file's header gives (the big-endian numbers
/// at offsets 16 and 20); `None` when the data is shorter than 24 bytes.
pub open spec fn png_dimensions_spec(data: Seq<u8>) -> Option<(int, int)> {
    if data.len() < 24 {
        None
    } else {
        Some((be_u32(data, 16), be_u32(data, 20)))
    }
}

fn be_u32_at(data: &[u8], i: usize) -> (r: u32)
    requires
        i + 4 <= data@.len(),
    ensures
        r == be_u32(data@, i as int),
{
    (data[i] as u32) * 16777216 + (data[i + 1] as u32) * 65536 + (data[i + 2] as u32) * 256
        + (data[i + 3] as u32)
}

/// The width and height in a PNG file's header.
pub fn png_dimensions(data: &[u8]) -> (r: Option<(u32, u32)>)
    ensures
        match r {
            Some((w, h)) => png_dimensions_spec(data@) == Some((w as int, h as int)),
            None => png_dimensions_spec(data@) is None,
        },
{
    if data.len() < 24 {
        return None;
    }
    Some((be_u32_at(data, 16), be_u32_at(data, 20)))
}

/// The dimensions part of a capture's description: "WxH" when both are
/// known and positive, else "未知".
pub open spec fn dims_text(c: CaptureResult) -> Seq<char> {
    match (c.width, c.height) {
        (Some(w), Some(h)) => if w > 0 && h > 0 {
            dec(w as nat) + "x"@ + dec(h as nat)
        } else {
            "未知"@
        },
        _ => "未知"@,
    }
}

/// The dimensions part of a capture's description.
pub fn capture_dims_text(c: &CaptureResult) -> (r: String)
    ensures
        r@ == dims_text(*c),
{
    match (c.width, c.height) {
        (Some(w), Some(h)) => {
            if w > 0 && h > 0 {
                let mut s = String::new();
                push_dec(&mut s, w as u64);
                push_str(&mut s, "x");
                push_dec(&mut s, h as u64);
                assert(s@ =~= dims_text(*c));
                s
            } else {
                owned("未知")
            }
        },
        _ => owned("未知"),
    }
}

/// The path of a capture, or "未知".
pub open spec fn path_or_unknown(c: CaptureResult) -> Seq<char> {
    match c.file_path {
        Some(p) => p@,
        None => "未知"@,
    }
}

/// The Feishu reply for a monitor result, given the descriptions of the two
/// screenshots.
pub open spec fn monitor_reply_spec(
    r: MonitorRunnerResult,
    duration_secs: u64,
    start_info: Seq<char>,
    end_info: Seq<char>,
) -> Seq<char> {
    match r {
        MonitorRunnerResult::Success { start_capture, end_capture, changed, .. } => "桌面监控完成\n\n监控时长："@
            + dec(duration_secs as nat) + " 秒\n截图状态：成功\n开始截图："@ + start_info + "\n结束截图："@
            + end_info + "\n变化检测："@ + (if changed {
            "有变化"@
        } else {
            "无明显变化"@
        }) + "\n截图保存位置：\n"@ + path_or_unknown(start_capture) + "\n"@ + path_or_unknown(end_capture)
            + "\n\n注意：变化检测仅基于截图文件哈希，非视觉语义分析。"@,
        MonitorRunnerResult::Unsupported { reason } => "桌面监控失败："@ + reason@
            + "\n\n当前飞书 /monitor 命令已识别，但此运行环境尚未接入桌面监控后端。\n请在桌面端启用桌面捕获能力后重试。"@,
        MonitorRunnerResult::Failed { error } => "桌面监控失败："@ + error@
            + "\n\n请检查屏幕录制/截图权限，或缩短监控时长后重试。"@,
    }
}

fn push_path_or_unknown(s: &mut String, c: &CaptureResult)
    ensures
        final(s)@ == old(s)@ + path_or_unknown(*c),
{
    match &c.file_path {
        Some(p) => push_str(s, p.as_str()),
        None => push_str(s, "未知"),
    }
}

/// The Feishu reply for a monitor result. `start_info` and `end_info`
/// describe the two screenshots (dimensions and size).
pub fn monitor_reply_text(
    result: &MonitorRunnerResult,
    duration_secs: u64,
    start_info: &str,
    end_info: &str,
) -> (r: String)
    ensures
        r@ == monitor_reply_spec(*result, duration_secs, start_info@, end_info@),
{
    match result {
        MonitorRunnerResult::Success { start_capture, end_capture, changed, .. } => {
            let mut s = owned("桌面监控完成\n\n监控时长：");
            push_dec(&mut s, duration_secs);
            push_str(&mut s, " 秒\n截图状态：成功\n开始截图：");
            push_str(&mut s, start_info);
            push_str(&mut s, "\n结束截图：");
            push_str(&mut s, end_info);
            push_str(&mut s, "\n变化检测：");
            if *changed {
                push_str(&mut s, "有变化");
            } else {
                push_str(&mut s, "无明显变化");
            }
            push_str(&mut s, "\n截图保存位置：\n");
            push_path_or_unknown(&mut s, start_capture);
            push_str(&mut s, "\n");
            push_path_or_unknown(&mut s, end_capture);
            push_str(&mut s, "\n\n注意：变化检测仅基于截图文件哈希，非视觉语义分析。");
            assert(s@ =~= monitor_reply_spec(*result, duration_secs, start_info@, end_info@));
            s
        },
        MonitorRunnerResult::Unsupported { reason } => {
            let mut s = owned("桌面监控失败：");
            push_str(&mut s, reason.as_str());
            push_str(
                &mut s,
                "\n\n当前飞书 /monitor 命令已识别，但此运行环境尚未接入桌面监控后端。\n请在桌面端启用桌面捕获能力后重试。",
            );
            s
        },
        MonitorRunnerResult::Failed { error } => {
            let mut s = owned("桌面监控失败：");
            push_str(&mut s, error.as_str());
            push_str(&mut s, "\n\n请检查屏幕录制/截图权限，或缩短监控时长后重试。");
            s
        },
    }
}

// ---------------------------------------------------------------------------
// Jobs
// ---------------------------------------------------------------------------

/// A webhook event to be processed in the background.
pub struct FeishuAsyncJob {
    /// Channel kind (Feishu).
    pub channel: ChannelKind,
    /// Parsed inbound message.
    pub inbound: InboundMessage,
    /// The raw payload as received (JSON text) for metadata extraction.
    pub raw_payload: String,
    /// Chat mode: "chat_only" or "tool".
    pub feishu_mode: String,
    /// Whether this is chat-only mode.
    pub is_chat_only: bool,
    /// Unix time in seconds when the job was created.
    pub created_at: u64,
    /// Job id for tracking.
    pub job_id: String,
    /// Event key for persistence tracking.
    pub event_key: String,
}

/// The mode name of a job.
pub open spec fn mode_name(is_chat_only: bool) -> Seq<char> {
    if is_chat_only {
        "chat_only"@
    } else {
        "tool"@
    }
}

/// A generated job id: "job_", the creation time, "_" and 8 characters of a
/// random UUID.
pub open spec fn generated_job_id(id: Seq<char>, created_at: u64) -> bool {
    exists|u: Seq<char>|
        crate::ids::is_hyphenated_uuid(u) && id == "job_"@ + dec(created_at as nat) + "_"@ + u.take(
            8,
        )
}

impl FeishuAsyncJob {
    /// A job created at `created_at` (Unix seconds). The given `job_id` is
    /// kept (for consistency with the persisted store); otherwise one is
    /// generated.
    pub fn new_at(
        channel: ChannelKind,
        inbound: InboundMessage,
        raw_payload: String,
        is_chat_only: bool,
        event_key: String,
        job_id: Option<String>,
        created_at: u64,
    ) -> (r: Self)
        ensures
            r.channel == channel,
            r.inbound == inbound,
            r.raw_payload == raw_payload,
            r.feishu_mode@ == mode_name(is_chat_only),
            r.is_chat_only == is_chat_only,
            r.created_at == created_at,
            r.event_key == event_key,
            job_id matches Some(j) ==> r.job_id == j,
            job_id is None ==> generated_job_id(r.job_id@, created_at),
    {
        let mode = if is_chat_only {
            "chat_only"
        } else {
            "tool"
        };
        let job_id = match job_id {
            Some(j) => j,
            None => {
                let u = crate::ids::uuid_v4_string();
                let uc = chars_of(u.as_str());
                let mut id = owned("job_");
                push_dec(&mut id, created_at);
                push_str(&mut id, "_");
                crate::text::push_range(&mut id, uc.as_slice(), 0, 8);
                assert(id@ =~= "job_"@ + dec(created_at as nat) + "_"@ + u@.take(8));
                id
            },
        };
        FeishuAsyncJob {
            channel,
            inbound,
            raw_payload,
            feishu_mode: owned(mode),
            is_chat_only,
            created_at,
            job_id,
            event_key,
        }
    }

    /// A job created now.
    pub fn new(
        channel: ChannelKind,
        inbound: InboundMessage,
        raw_payload: String,
        is_chat_only: bool,
        event_key: String,
        job_id: Option<String>,
    ) -> (r: Self)
        ensures
            r.channel == channel,
            r.inbound == inbound,
            r.raw_payload == raw_payload,
            r.feishu_mode@ == mode_name(is_chat_only),
            r.is_chat_only == is_chat_only,
            r.event_key == event_key,
            job_id matches Some(j) ==> r.job_id == j,
            job_id is None ==> generated_job_id(r.job_id@, r.created_at),
    {
        let now = crate::clock::unix_secs_or_zero();
        Self::new_at(channel, inbound, raw_payload, is_chat_only, event_key, job_id, now)
    }
}

/// Whether a job is a `/monitor` command in tool mode.
pub open spec fn monitor_command_spec(is_chat_only: bool, text: Seq<char>) -> bool {
    !is_chat_only && seq_starts_with(lowercase(text), "/monitor"@)
}

/// Whether a job is a monitor command in tool mode.
pub fn is_monitor_command(job: &FeishuAsyncJob) -> (r: bool)
    ensures
        r == monitor_command_spec(job.is_chat_only, job.inbound.text@),
{
    if job.is_chat_only {
        return false;
    }
    let lower = str_to_lowercase(job.inbound.text.as_str());
    let lc = chars_of(lower.as_str());
    starts_with_lit(lc.as_slice(), "/monitor")
}

// ---------------------------------------------------------------------------
// Job routing
// ---------------------------------------------------------------------------

/// Runtime execution timeout in seconds.
pub const RUNTIME_TIMEOUT_SECS: u64 = 120;

/// The reply when a monitor is already running for the chat.
pub open spec fn monitor_busy_text() -> Seq<char> {
    "已有桌面监控任务正在执行，请等待当前任务完成后再试。"@
}

/// Where a job goes.
pub enum FeishuJobRoute {
    /// A menu trigger: send the command palette card.
    CommandPalette,
    /// A tool request in chat-only mode: send this refusal.
    Blocked { reply: String },
    /// A `/monitor` command in tool mode: run the monitor this long.
    Monitor { duration_secs: u64 },
    /// Anything else: the agent runtime, after this progress reply for a
    /// slash command in tool mode.
    Runtime { progress_reply: Option<String> },
}

/// The progress reply a job sends before the runtime: in tool mode, for a
/// slash command.
pub open spec fn runtime_progress(is_chat_only: bool, text: Seq<char>) -> Option<Seq<char>> {
    if !is_chat_only && slash_command_spec(text) is Some {
        Some(progress_reply_spec(slash_command_spec(text)->0))
    } else {
        None
    }
}

/// Whether a route is the one a job's text and mode call for: the palette
/// for a menu trigger; else, in chat-only mode, the refusal of a tool
/// intent; else the monitor for a `/monitor` command in tool mode; else the
/// runtime.
pub open spec fn route_spec(is_chat_only: bool, text: Seq<char>, r: FeishuJobRoute) -> bool {
    if menu_trigger_spec(text) {
        r is CommandPalette
    } else if is_chat_only && tool_intent_spec(text) is Some {
        r matches FeishuJobRoute::Blocked { reply } && reply@
            == "当前飞书普通聊天模式不直接执行工具任务。如需处理文件，请发送：/file <任务描述>。删除文件属于高风险操作，需要确认后才能执行。"@
    } else if monitor_command_spec(is_chat_only, text) {
        r matches FeishuJobRoute::Monitor { duration_secs } && duration_secs as nat
            == monitor_duration_spec(lowercase(text))
    } else {
        r matches FeishuJobRoute::Runtime { progress_reply } && ov_str(progress_reply)
            == runtime_progress(is_chat_only, text)
    }
}

/// The view of an optional string.
pub open spec fn ov_str(s: Option<String>) -> Option<Seq<char>> {
    match s {
        Some(v) => Some(v@),
        None => None,
    }
}

/// Whether a job that routes to the monitor has a duration that fits in
/// `u64` (see `checked_monitor_duration`); true of every other job.
pub open spec fn monitor_route_fits(is_chat_only: bool, text: Seq<char>) -> bool {
    (!menu_trigger_spec(text) && !(is_chat_only && tool_intent_spec(text) is Some)
        && monitor_command_spec(is_chat_only, text)) ==> duration_fits(lowercase(text))
}

/// Routes a job. A `/monitor` duration must fit (see `checked_monitor_duration`).
pub fn route_feishu_job(job: &FeishuAsyncJob) -> (r: FeishuJobRoute)
    requires
        monitor_route_fits(job.is_chat_only, job.inbound.text@),
    ensures
        route_spec(job.is_chat_only, job.inbound.text@, r),
{
    let text = job.inbound.text.as_str();
    if is_menu_trigger(text) {
        return FeishuJobRoute::CommandPalette;
    }
    if job.is_chat_only {
        if detect_tool_intent(text).is_some() {
            return FeishuJobRoute::Blocked { reply: chat_only_blocked_response() };
        }
    }
    if is_monitor_command(job) {
        return FeishuJobRoute::Monitor { duration_secs: parse_monitor_duration_from_text(text) };
    }
    let progress_reply = if !job.is_chat_only {
        match extract_slash_command(text) {
            Some(command) => Some(progress_reply_for_command(command.as_str())),
            None => None,
        }
    } else {
        None
    };
    FeishuJobRoute::Runtime { progress_reply }
}

/// Routes a job, or `None` for a `/monitor` command whose duration overflows.
pub fn try_route_feishu_job(job: &FeishuAsyncJob) -> (r: Option<FeishuJobRoute>)
    ensures
        r is None <==> !monitor_route_fits(job.is_chat_only, job.inbound.text@),
        r matches Some(route) ==> route_spec(job.is_chat_only, job.inbound.text@, route),
{
    let text = job.inbound.text.as_str();
    if !is_menu_trigger(text) && !(job.is_chat_only && detect_tool_intent(text).is_some())
        && is_monitor_command(job) {
        if checked_monitor_duration(text).is_none() {
            return None;
        }
    }
    Some(route_feishu_job(job))
}

/// How the agent runtime answered a job.
pub enum RuntimeOutcome {
    Replied(String),
    Failed(String),
    TimedOut,
}

/// What a job does after the runtime.
pub enum RuntimeFinish {
    /// Send this final reply; the job is completed.
    Reply(String),
    /// The reply was blank: nothing is sent; the job is completed.
    SkipEmpty,
    /// Send this reply; the job failed with this error code and message.
    Fail { reply: String, error_code: &'static str, message: String },
}

/// The step after the runtime: a blank reply is skipped, another reply is
/// sent; a failure or a timeout sends its fixed reply and fails the job.
pub fn finish_runtime_job(outcome: RuntimeOutcome) -> (r: RuntimeFinish)
    ensures
        match outcome {
            RuntimeOutcome::Replied(reply) => if trim_seq(reply@).len() == 0 {
                r is SkipEmpty
            } else {
                r matches RuntimeFinish::Reply(x) && x@ == reply@
            },
            RuntimeOutcome::Failed(e) => r matches RuntimeFinish::Fail { reply, error_code, message } && reply@
                == "任务执行失败，未完成操作。请稍后重试，或在桌面端查看详细日志。"@ && error_code@ == "runtime_error"@
                && message@ == e@,
            RuntimeOutcome::TimedOut => r matches RuntimeFinish::Fail { reply, error_code, message } && reply@
                == "任务执行超时，当前未完成。请缩短任务范围后重试；如果是监控任务，建议使用较短时长，例如：/monitor 桌面 30 秒。"@
                && error_code@ == "timeout"@ && message@ == "Runtime timeout after "@ + dec(
                RUNTIME_TIMEOUT_SECS as nat,
            ) + "s"@,
        },
{
    match outcome {
        RuntimeOutcome::Replied(reply) => {
            if crate::text::trimmed_chars(reply.as_str()).len() == 0 {
                RuntimeFinish::SkipEmpty
            } else {
                RuntimeFinish::Reply(reply)
            }
        },
        RuntimeOutcome::Failed(e) => RuntimeFinish::Fail {
            reply: runtime_error_reply(),
            error_code: "runtime_error",
            message: e,
        },
        RuntimeOutcome::TimedOut => {
            let mut message = owned("Runtime timeout after ");
            push_dec(&mut message, RUNTIME_TIMEOUT_SECS);
            push_str(&mut message, "s");
            RuntimeFinish::Fail { reply: timeout_reply(), error_code: "timeout", message }
        },
    }
}

/// Whether a monitor job must stop because its chat's monitor is busy: the
/// chat is known and no lease was held or taken for it.
pub fn monitor_guard_busy(chat_present: bool, lease_held: bool) -> (r: Option<String>)
    ensures
        (chat_present && !lease_held) ==> (r matches Some(t) && t@ == monitor_busy_text()),
        !(chat_present && !lease_held) ==> r is None,
{
    if chat_present && !lease_held {
        Some(owned("已有桌面监控任务正在执行，请等待当前任务完成后再试。"))
    } else {
        None
    }
}

} // verus!
