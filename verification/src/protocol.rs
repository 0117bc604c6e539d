//! Controller-side coordination: the text-command surface and the
//! at-most-one-in-flight command/reply discipline, plus the bounded queue
//! that absorbs the renderer's fire-and-forget event stream.
//!
//! The in-flight discipline is kept in an explicit two-state value
//! (`LinkState`), the single source of truth: a command is dispatched only
//! from `Idle`, dispatching moves to `Pending`, and only an observed reply
//! moves back. A submission while `Pending` is answered locally with a busy
//! notice and never reaches the renderer (`lemma_at_most_one_in_flight`).
use crate::strings::{
    after_first_space, chars_of, contains_chars, first_token, join_nl, lemma_join_push, lower_of,
    spec_trim, split_first_token, split_lines, str_eq, to_lower, trim_str, views,
};
use crate::utils::{dec_digits, push_u64};
use vstd::prelude::*;

verus! {

/// A text message pushed by the renderer over the event channel.
#[derive(Debug, Clone)]
pub struct RendererMessage(pub String);

/// Whether a command round trip is outstanding.
#[derive(Clone, Copy, Debug, PartialEq, Eq, Structural)]
pub enum LinkState {
    Idle,
    Pending,
}

/// What a submission asks the surrounding shell to do.
pub enum SubmitAction {
    /// Empty input: nothing happened.
    Kept,
    /// The output pane was reset.
    Cleared,
    /// The command was answered from local state; nothing was sent.
    AnsweredLocally,
    /// A command is still in flight: the submission was refused locally.
    Busy,
    /// Send this command over the command channel and await one reply.
    Dispatch(String),
}

/// Commands the controller answers without the renderer.
pub open spec fn is_local_command(cmd: Seq<char>) -> bool {
    ||| cmd == "--clear"@
    ||| first_token(cmd) == "--help"@
    ||| first_token(cmd) == "--schema"@
    ||| first_token(cmd) == "--find"@
}

/// A submission carries a command for the renderer exactly when the trimmed
/// input is a non-empty non-local command and no reply is outstanding.
pub open spec fn submit_dispatches(state: LinkState, cmd: Seq<char>) -> bool {
    &&& cmd.len() > 0
    &&& !is_local_command(cmd)
    &&& state == LinkState::Idle
}

/// The link state after a submission: dispatching (or being refused while
/// pending) leaves the link pending; local commands leave it alone.
pub open spec fn link_after_submit(state: LinkState, cmd: Seq<char>) -> LinkState {
    if cmd.len() > 0 && !is_local_command(cmd) {
        LinkState::Pending
    } else {
        state
    }
}

/// At-most-one-in-flight: once a command has been dispatched, no further
/// submission dispatches anything — whatever is typed, the link answers
/// busy locally — until the reply is observed.
pub proof fn lemma_at_most_one_in_flight(state: LinkState, first: Seq<char>, second: Seq<char>)
    requires
        submit_dispatches(state, first),
    ensures
        !submit_dispatches(link_after_submit(state, first), second),
{
}

/// The command history after a submission: the trimmed command is appended
/// unless it repeats the last entry.
pub open spec fn history_after(h: Seq<Seq<char>>, cmd: Seq<char>) -> Seq<Seq<char>> {
    if h.len() > 0 && h.last() == cmd {
        h
    } else {
        h.push(cmd)
    }
}

/// The prompt echo line: `[HH:MM:SS] > command`.
pub open spec fn prompt_line(ts: Seq<char>, cmd: Seq<char>) -> Seq<char> {
    seq!['['] + ts + seq![']', ' ', '>', ' '] + cmd
}

/// A timestamped output block: `[HH:MM:SS]` on its own line, then the body.
pub open spec fn stamp_block(ts: Seq<char>, body: Seq<char>) -> Seq<char> {
    seq!['['] + ts + seq![']', '\n'] + body
}

/// The lines of the message pane that contain the pattern,
/// case-insensitively, among the first `n`.
pub open spec fn matched_upto(parts: Seq<Seq<char>>, pattern: Seq<char>, n: int) -> Seq<Seq<char>>
    decreases n,
{
    if n <= 0 {
        Seq::empty()
    } else {
        let prefix = matched_upto(parts, pattern, n - 1);
        if crate::strings::contains_sub(lower_of(parts[n - 1]), lower_of(pattern)) {
            prefix.push(parts[n - 1])
        } else {
            prefix
        }
    }
}

/// The body of a `--find` reply over a line decomposition of the message
/// pane.
pub open spec fn find_reply_body(parts: Seq<Seq<char>>, pattern: Seq<char>) -> Seq<char> {
    let matched = matched_upto(parts, pattern, parts.len() as int);
    if matched.len() == 0 {
        "No matches found for '"@ + pattern + "'."@
    } else {
        "Found "@ + dec_digits(matched.len() as nat) + " matching lines for '"@ + pattern + "':"@
            + seq!['\n'] + join_nl(matched)
    }
}

/// The controller's special command tokens are pairwise distinct.
proof fn lemma_distinct_command_tokens()
    ensures
        "--help"@ != "--schema"@,
        "--help"@ != "--find"@,
        "--schema"@ != "--find"@,
        "--clear"@ != "--help"@,
        "--clear"@ != "--schema"@,
        "--clear"@ != "--find"@,
{
    reveal_strlit("--clear");
    reveal_strlit("--help");
    reveal_strlit("--schema");
    reveal_strlit("--find");
    assert("--help"@.len() == 6);
    assert("--schema"@.len() == 8);
    assert("--find"@.len() == 6);
    assert("--clear"@.len() == 7);
    assert("--help"@[2] == 'h' && "--find"@[2] == 'f' && "--clear"@[2] == 'c');
}

/// Relies on chrono's `Local::now` formatted as `%H:%M:%S`: eight
/// characters of wall-clock time (the value depends on the clock).
#[verifier::external_body]
fn now_hms() -> (r: String)
    ensures
        r@.len() == 8,
{
    chrono::Local::now().format("%H:%M:%S").to_string()
}

/// Controller-side state: the message pane, the command surface and its
/// history, and the in-flight flag.
pub struct ControllerSession {
    pub message_text: String,
    pub repl_lines: Vec<String>,
    pub repl_input: String,
    pub command_history: Vec<String>,
    pub history_index: usize,
    pub repl_visible: bool,
    pub state: LinkState,
}

impl ControllerSession {
    /// Invariant: the history cursor never runs past the history.
    pub open spec fn wf(self) -> bool {
        self.history_index <= self.command_history@.len()
    }

    /// The configuration-like fields a submission never touches.
    pub open spec fn same_pane(self, other: ControllerSession) -> bool {
        &&& self.message_text == other.message_text
        &&& self.repl_visible == other.repl_visible
    }

    /// Fresh session: hint lines in the output pane, empty input and
    /// history, link idle.
    pub fn new(message_text: String) -> (s: ControllerSession)
        ensures
            s.wf(),
            s.state == LinkState::Idle,
            s.message_text == message_text,
            s.repl_input@.len() == 0,
            s.command_history@.len() == 0,
            s.history_index == 0,
            s.repl_visible,
            views(s.repl_lines@) == hint_views(),
    {
        let s = ControllerSession {
            message_text,
            repl_lines: hint_lines(),
            repl_input: String::new(),
            command_history: Vec::new(),
            history_index: 0,
            repl_visible: true,
            state: LinkState::Idle,
        };
        s
    }

    /// A renderer event replaces the message pane.
    pub fn renderer_event(&mut self, text: String)
        requires
            old(self).wf(),
        ensures
            final(self).wf(),
            final(self).message_text == text,
            final(self).repl_lines == old(self).repl_lines,
            final(self).state == old(self).state,
    {
        self.message_text = text;
    }

    /// Keystrokes replace the input line.
    pub fn input_changed(&mut self, s: String)
        requires
            old(self).wf(),
        ensures
            final(self).wf(),
            final(self).repl_input == s,
            final(self).state == old(self).state,
            final(self).repl_lines == old(self).repl_lines,
    {
        self.repl_input = s;
    }

    /// Show or hide the command pane.
    pub fn toggle_repl(&mut self)
        requires
            old(self).wf(),
        ensures
            final(self).wf(),
            final(self).repl_visible == !old(self).repl_visible,
            final(self).state == old(self).state,
    {
        self.repl_visible = !self.repl_visible;
    }

    /// The matching reply arrived: clear the in-flight flag and append the
    /// timestamped result to the output pane.
    pub fn sql_result(&mut self, result: String)
        requires
            old(self).wf(),
        ensures
            final(self).wf(),
            final(self).state == LinkState::Idle,
            final(self).same_pane(*old(self)),
            final(self).repl_input == old(self).repl_input,
            final(self).command_history == old(self).command_history,
            final(self).history_index == old(self).history_index,
            exists|ts: Seq<char>|
                ts.len() == 8 && views(final(self).repl_lines@) == views(
                    old(self).repl_lines@,
                ).push(#[trigger] stamp_block(ts, result@)),
    {
        self.state = LinkState::Idle;
        let ts: String = now_hms();
        let mut line: String = String::new();
        line.append("[");
        line.append(ts.as_str());
        line.append("]\n");
        line.append(result.as_str());
        proof {
            reveal_strlit("[");
            reveal_strlit("]\n");
            assert(line@ =~= stamp_block(ts@, result@));
        }
        let ghost old_views = views(self.repl_lines@);
        self.repl_lines.push(line);
        proof {
            assert(views(self.repl_lines@) =~~= old_views.push(stamp_block(ts@, result@)));
        }
    }

    /// Handle a submitted input line: echo it into the output pane, answer
    /// local commands from local state, and otherwise enforce the
    /// at-most-one-in-flight discipline — the command is dispatched only
    /// when the link is idle; while a reply is outstanding every further
    /// query is refused locally with a busy notice and nothing is sent.
    pub fn submit(&mut self) -> (action: SubmitAction)
        requires
            old(self).wf(),
        ensures
            final(self).wf(),
            final(self).same_pane(*old(self)),
            ({
                let cmd = spec_trim(old(self).repl_input@);
                &&& (cmd.len() == 0 ==> *final(self) == *old(self) && (action is Kept))
                &&& (cmd.len() > 0 ==> {
                    &&& final(self).repl_input@.len() == 0
                    &&& views(final(self).command_history@) == history_after(
                        views(old(self).command_history@),
                        cmd,
                    )
                    &&& final(self).history_index == final(self).command_history@.len()
                    &&& final(self).state == link_after_submit(old(self).state, cmd)
                    &&& ((action is Dispatch) <==> submit_dispatches(old(self).state, cmd))
                    &&& (match action {
                        SubmitAction::Dispatch(c) => c@ == cmd,
                        _ => true,
                    })
                    &&& (cmd == "--clear"@ ==> (action is Cleared) && views(
                        final(self).repl_lines@,
                    ) == hint_views())
                    &&& (cmd != "--clear"@ ==> exists|ts: Seq<char>|
                        #![trigger prompt_line(ts, cmd)]
                        {
                            &&& ts.len() == 8
                            &&& (first_token(cmd) == "--help"@ ==> (action is AnsweredLocally)
                                && views(final(self).repl_lines@) == views(
                                old(self).repl_lines@,
                            ).push(prompt_line(ts, cmd)).push(stamp_block(ts, help_text())))
                            &&& (first_token(cmd) == "--schema"@ ==> (action is AnsweredLocally)
                                && views(final(self).repl_lines@) == views(
                                old(self).repl_lines@,
                            ).push(prompt_line(ts, cmd)).push(stamp_block(ts, schema_text())))
                            &&& (first_token(cmd) == "--find"@ ==> (action is AnsweredLocally)
                                && ({
                                let pat = spec_trim(after_first_space(cmd));
                                if pat.len() == 0 {
                                    views(final(self).repl_lines@) == views(
                                        old(self).repl_lines@,
                                    ).push(prompt_line(ts, cmd)).push(
                                        stamp_block(ts, find_usage_text()),
                                    )
                                } else {
                                    exists|parts: Seq<Seq<char>>|
                                        #![trigger join_nl(parts)]
                                        {
                                            &&& join_nl(parts)
                                                == old(self).message_text@
                                            &&& views(final(self).repl_lines@) == views(
                                                old(self).repl_lines@,
                                            ).push(prompt_line(ts, cmd)).push(
                                                stamp_block(ts, find_reply_body(parts, pat)),
                                            )
                                        }
                                }
                            }))
                            &&& (!is_local_command(cmd) ==> (if old(self).state
                                == LinkState::Pending {
                                (action is Busy) && views(final(self).repl_lines@) == views(
                                    old(self).repl_lines@,
                                ).push(prompt_line(ts, cmd)).push(stamp_block(ts, busy_text()))
                            } else {
                                views(final(self).repl_lines@) == views(
                                    old(self).repl_lines@,
                                ).push(prompt_line(ts, cmd))
                            }))
                        })
                })
            }),
    {
        let command: String = trim_str(self.repl_input.as_str());
        let ghost cmd = spec_trim(old(self).repl_input@);
        if command.as_str().unicode_len() == 0 {
            return SubmitAction::Kept;
        }

        let hn: usize = self.command_history.len();
        let dup: bool = if hn > 0 {
            str_eq(self.command_history[hn - 1].as_str(), command.as_str())
        } else {
            false
        };
        if !dup {
            let ghost old_h = views(self.command_history@);
            self.command_history.push(command.clone());
            proof {
                assert(views(self.command_history@) =~~= old_h.push(cmd));
            }
        }
        self.history_index = self.command_history.len();
        self.repl_input = String::new();

        if str_eq(command.as_str(), "--clear") {
            self.repl_lines = hint_lines();
            return SubmitAction::Cleared;
        }

        let ts: String = now_hms();
        let mut prompt: String = String::new();
        prompt.append("[");
        prompt.append(ts.as_str());
        prompt.append("] > ");
        prompt.append(command.as_str());
        proof {
            reveal_strlit("[");
            reveal_strlit("] > ");
            assert(prompt@ =~= prompt_line(ts@, cmd));
        }
        let ghost lines0 = views(self.repl_lines@);
        self.repl_lines.push(prompt);
        proof {
            assert(views(self.repl_lines@) =~~= lines0.push(prompt_line(ts@, cmd)));
        }

        let (token, rest) = split_first_token(command.as_str());
        if str_eq(token.as_str(), "--help") {
            self.push_stamped(ts.as_str(), String::from_str(
                "Execute any SQLite commands.\nSpecial commands:\n    --help: display this help message\n    --schema: display database schema of the memory snapshot\n    --clear: clear REPL output\n    --find <pattern>: find the message panel (on the left) with a pattern.\n                      case INsensitive, does NOT support regex\n",
            ));
            proof {
                lemma_distinct_command_tokens();
            }
            return SubmitAction::AnsweredLocally;
        }
        if str_eq(token.as_str(), "--schema") {
            self.push_stamped(ts.as_str(), String::from_str(
                "CREATE TABLE allocs (\n    idx INTEGER PRIMARY KEY,\n    size INTEGER,\n    start_time INTEGER,\n    end_time INTEGER,\n    callstack TEXT\n);",
            ));
            proof {
                lemma_distinct_command_tokens();
            }
            return SubmitAction::AnsweredLocally;
        }
        if str_eq(token.as_str(), "--find") {
            let pattern: String = match rest {
                Some(r) => trim_str(r.as_str()),
                None => String::new(),
            };
            if pattern.as_str().unicode_len() == 0 {
                self.push_stamped(ts.as_str(), String::from_str("Usage: --find <pattern>"));
                return SubmitAction::AnsweredLocally;
            }
            let reply: String = self.find_reply(pattern);
            self.push_stamped(ts.as_str(), reply);
            return SubmitAction::AnsweredLocally;
        }

        proof {
            assert(!is_local_command(cmd));
        }
        match self.state {
            LinkState::Pending => {
                self.push_stamped(ts.as_str(), String::from_str(
                    "Busy - previous query still in-flight.",
                ));
                SubmitAction::Busy
            },
            LinkState::Idle => {
                self.state = LinkState::Pending;
                SubmitAction::Dispatch(command)
            },
        }
    }

    /// Append a timestamped block to the output pane.
    fn push_stamped(&mut self, ts: &str, body: String)
        requires
            old(self).wf(),
        ensures
            final(self).wf(),
            final(self).same_pane(*old(self)),
            final(self).state == old(self).state,
            final(self).repl_input == old(self).repl_input,
            final(self).command_history == old(self).command_history,
            final(self).history_index == old(self).history_index,
            views(final(self).repl_lines@) == views(old(self).repl_lines@).push(
                stamp_block(ts@, body@),
            ),
    {
        let mut line: String = String::new();
        line.append("[");
        line.append(ts);
        line.append("]\n");
        line.append(body.as_str());
        proof {
            reveal_strlit("[");
            reveal_strlit("]\n");
            assert(line@ =~= stamp_block(ts@, body@));
        }
        let ghost old_views = views(self.repl_lines@);
        self.repl_lines.push(line);
        proof {
            assert(views(self.repl_lines@) =~~= old_views.push(stamp_block(ts@, body@)));
        }
    }

    /// Build the `--find` reply: the message-pane lines that contain the
    /// pattern, case-insensitively.
    fn find_reply(&self, pattern: String) -> (reply: String)
        requires
            pattern@.len() > 0,
        ensures
            exists|parts: Seq<Seq<char>>|
                #![trigger join_nl(parts)]
                {
                    &&& join_nl(parts) == self.message_text@
                    &&& reply@ == find_reply_body(parts, pattern@)
                },
    {
        let parts: Vec<String> = split_lines(self.message_text.as_str());
        let pat_lower: String = to_lower(pattern.as_str());
        let pat_chars: Vec<char> = chars_of(pat_lower.as_str());
        let n: usize = parts.len();
        let mut matched: Vec<String> = Vec::new();
        let mut i: usize = 0;
        while i < n
            invariant
                n == parts@.len(),
                0 <= i <= n,
                pat_chars@ == lower_of(pattern@),
                views(matched@) == matched_upto(views(parts@), pattern@, i as int),
            decreases n - i,
        {
            let lowered: String = to_lower(parts[i].as_str());
            let line_chars: Vec<char> = chars_of(lowered.as_str());
            let ghost old_m = views(matched@);
            if contains_chars(&line_chars, &pat_chars) {
                matched.push(parts[i].clone());
                proof {
                    assert(views(matched@) =~~= old_m.push(views(parts@)[i as int]));
                }
            }
            i = i + 1;
        }

        let ghost pviews = views(parts@);
        let ghost mviews = matched_upto(pviews, pattern@, pviews.len() as int);
        let m: usize = matched.len();
        if m == 0 {
            let mut reply: String = String::new();
            reply.append("No matches found for '");
            reply.append(pattern.as_str());
            reply.append("'.");
            proof {
                assert(reply@ =~= find_reply_body(pviews, pattern@));
            }
            reply
        } else {
            let mut reply: String = String::new();
            reply.append("Found ");
            push_u64(&mut reply, m as u64);
            reply.append(" matching lines for '");
            reply.append(pattern.as_str());
            reply.append("':\n");
            let ghost head = "Found "@ + dec_digits(m as nat) + " matching lines for '"@
                + pattern@ + "':"@ + seq!['\n'];
            proof {
                reveal_strlit("':\n");
                reveal_strlit("':");
                assert(reply@ =~= head);
            }
            let mut k: usize = 0;
            while k < m
                invariant
                    m == matched@.len(),
                    0 <= k <= m,
                    m >= 1,
                    views(matched@) == mviews,
                    head == "Found "@ + dec_digits(m as nat) + " matching lines for '"@
                        + pattern@ + "':"@ + seq!['\n'],
                    k == 0 ==> reply@ == head,
                    k > 0 ==> reply@ == head + join_nl(views(matched@).take(k as int)),
                decreases m - k,
            {
                if k > 0 {
                    reply.append("\n");
                    proof {
                        reveal_strlit("\n");
                    }
                }
                let line: String = matched[k].clone();
                reply.append(line.as_str());
                proof {
                    let mv = views(matched@);
                    assert(mv.take(k + 1) =~~= mv.take(k as int).push(mv[k as int]));
                    lemma_join_push(mv.take(k as int), mv[k as int]);
                    if k == 0 {
                        assert(join_nl(mv.take(1)) == mv[0]);
                        assert(reply@ =~= head + join_nl(mv.take(k + 1)));
                    } else {
                        assert(reply@ =~= head + join_nl(mv.take(k + 1)));
                    }
                }
                k = k + 1;
            }
            proof {
                assert(views(matched@).take(m as int) =~~= views(matched@));
                assert(reply@ =~= find_reply_body(pviews, pattern@));
            }
            reply
        }
    }

    /// Recall the previous history entry into the input line.
    pub fn history_up(&mut self)
        requires
            old(self).wf(),
        ensures
            final(self).wf(),
            final(self).state == old(self).state,
            final(self).command_history == old(self).command_history,
            old(self).command_history@.len() == 0 ==> *final(self) == *old(self),
            old(self).command_history@.len() > 0 ==> {
                &&& final(self).history_index == (if old(self).history_index > 0 {
                    old(self).history_index - 1
                } else {
                    0int
                })
                &&& final(self).repl_input@ == old(self).command_history@[
                    final(self).history_index as int]@
            },
    {
        if self.command_history.len() == 0 {
            return ;
        }
        if self.history_index > 0 {
            self.history_index = self.history_index - 1;
        }
        if self.history_index < self.command_history.len() {
            self.repl_input = self.command_history[self.history_index].clone();
        } else {
            let last: usize = self.command_history.len() - 1;
            self.history_index = last;
            self.repl_input = self.command_history[last].clone();
        }
    }

    /// Recall the next history entry, or clear the input past the end.
    pub fn history_down(&mut self)
        requires
            old(self).wf(),
        ensures
            final(self).wf(),
            final(self).state == old(self).state,
            final(self).command_history == old(self).command_history,
            old(self).command_history@.len() == 0 ==> *final(self) == *old(self),
            old(self).command_history@.len() > 0 ==> {
                let bumped = old(self).history_index + 1;
                if bumped >= old(self).command_history@.len() {
                    &&& final(self).history_index == old(self).command_history@.len()
                    &&& final(self).repl_input@.len() == 0
                } else {
                    &&& final(self).history_index == bumped
                    &&& final(self).repl_input@ == old(self).command_history@[bumped]@
                }
            },
    {
        if self.command_history.len() == 0 {
            return ;
        }
        if self.history_index >= self.command_history.len() - 1 {
            self.history_index = self.command_history.len();
            self.repl_input = String::new();
        } else {
            let bumped: usize = self.history_index + 1;
            self.history_index = bumped;
            self.repl_input = self.command_history[bumped].clone();
        }
    }
}

/// The hint lines a fresh (or cleared) output pane shows.
pub open spec fn hint_views() -> Seq<Seq<char>> {
    seq![
        "SQLite REPL - This is a SQLite database storing the allocation data."@,
        "Type `--help` to see available commands."@,
        "Type `--find <pattern>` to search messages."@,
        "Ctrl+D to quit application."@,
    ]
}

/// Build the hint lines.
pub fn hint_lines() -> (lines: Vec<String>)
    ensures
        views(lines@) == hint_views(),
{
    let mut lines: Vec<String> = Vec::new();
    lines.push(String::from_str(
        "SQLite REPL - This is a SQLite database storing the allocation data.",
    ));
    lines.push(String::from_str("Type `--help` to see available commands."));
    lines.push(String::from_str("Type `--find <pattern>` to search messages."));
    lines.push(String::from_str("Ctrl+D to quit application."));
    proof {
        assert(views(lines@) =~~= hint_views());
    }
    lines
}

/// The `--help` reply body.
pub open spec fn help_text() -> Seq<char> {
    "Execute any SQLite commands.\nSpecial commands:\n    --help: display this help message\n    --schema: display database schema of the memory snapshot\n    --clear: clear REPL output\n    --find <pattern>: find the message panel (on the left) with a pattern.\n                      case INsensitive, does NOT support regex\n"@
}

/// The `--schema` reply body.
pub open spec fn schema_text() -> Seq<char> {
    "CREATE TABLE allocs (\n    idx INTEGER PRIMARY KEY,\n    size INTEGER,\n    start_time INTEGER,\n    end_time INTEGER,\n    callstack TEXT\n);"@
}

/// The busy notice shown when a submission is refused.
pub open spec fn busy_text() -> Seq<char> {
    "Busy - previous query still in-flight."@
}

/// The usage notice for `--find` without a pattern.
pub open spec fn find_usage_text() -> Seq<char> {
    "Usage: --find <pattern>"@
}

/// A bounded queue between the event-channel listener and the controller's
/// own loop: when it is full, further events are refused rather than
/// blocking the sender.
pub struct EventQueue {
    pub items: Vec<String>,
    pub capacity: usize,
}

impl EventQueue {
    /// The queue never exceeds its capacity.
    pub open spec fn wf(self) -> bool {
        self.items@.len() <= self.capacity
    }

    /// Empty queue with the given capacity.
    pub fn new(capacity: usize) -> (q: EventQueue)
        ensures
            q.wf(),
            q.capacity == capacity,
            q.items@.len() == 0,
    {
        EventQueue { items: Vec::new(), capacity }
    }

    /// Enqueue unless full; a refused event is dropped, never blocked on.
    pub fn push(&mut self, event: String) -> (accepted: bool)
        requires
            old(self).wf(),
        ensures
            final(self).wf(),
            final(self).capacity == old(self).capacity,
            accepted == (old(self).items@.len() < old(self).capacity),
            accepted ==> final(self).items@ == old(self).items@.push(event),
            !accepted ==> final(self).items@ == old(self).items@,
    {
        if self.items.len() < self.capacity {
            self.items.push(event);
            true
        } else {
            false
        }
    }

    /// Hand over everything queued so far, emptying the queue.
    pub fn drain(&mut self) -> (events: Vec<String>)
        requires
            old(self).wf(),
        ensures
            final(self).wf(),
            final(self).capacity == old(self).capacity,
            final(self).items@.len() == 0,
            events@ == old(self).items@,
    {
        let mut taken: Vec<String> = Vec::new();
        core::mem::swap(&mut taken, &mut self.items);
        taken
    }
}

} // verus!
