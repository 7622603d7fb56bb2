//! Slash commands of the interactive session, how one line of input is taken,
//! and the prompt of one-shot mode.
use vstd::prelude::*;
use crate::text::{
    chars_eq_str, from_chars, is_whitespace, is_ws, slice_from, slice_range, starts_with, to_chars,
    trim, trim_chars, trim_str,
};

verus! {

broadcast use vstd::string::group_string_axioms;

/// What the session loop does after a command.
pub enum Action {
    /// The command was handled; keep reading input.
    Continue,
    /// The command asks to leave.
    Quit,
}

#[derive(Debug)]
pub enum Command {
    Help,
    Clear,
    New,
    Cost,
    Tools,
    Model(Option<String>),
    Sessions,
    Export(String),
    Quit,
    Unknown(String),
}

/// The position of the first white-space character.
pub open spec fn first_ws(s: Seq<char>) -> Option<int>
    decreases s.len(),
{
    if s.len() == 0 {
        None
    } else {
        match first_ws(s.drop_last()) {
            Some(i) => Some(i),
            None => if is_ws(s.last()) {
                Some(s.len() - 1)
            } else {
                None
            },
        }
    }
}

/// `splitn(2, char::is_whitespace)`: the text before the first white space, and
/// the text after it (empty when there is none).
pub open spec fn split_head(s: Seq<char>) -> (Seq<char>, Seq<char>) {
    match first_ws(s) {
        Some(i) => (s.take(i), s.skip(i + 1)),
        None => (s, seq![]),
    }
}

/// The command a name and its (trimmed) argument stand for.
pub open spec fn command_for(c: Command, head: Seq<char>, rest: Seq<char>) -> bool {
    if head == "help"@ || head == "h"@ || head == "?"@ {
        c is Help
    } else if head == "clear"@ {
        c is Clear
    } else if head == "new"@ {
        c is New
    } else if head == "cost"@ {
        c is Cost
    } else if head == "tools"@ {
        c is Tools
    } else if head == "model"@ {
        c matches Command::Model(o) && if rest.len() == 0 {
            o is None
        } else {
            o matches Some(m) && m@ == rest
        }
    } else if head == "sessions"@ {
        c is Sessions
    } else if head == "export"@ {
        c matches Command::Export(f) && f@ == (if rest.len() == 0 {
            "md"@
        } else {
            rest
        })
    } else if head == "quit"@ || head == "exit"@ || head == "q"@ {
        c is Quit
    } else {
        c matches Command::Unknown(n) && n@ == head
    }
}

/// Which command a value is: one number per variant.
pub open spec fn command_tag(c: Command) -> nat {
    match c {
        Command::Help => 0,
        Command::Clear => 1,
        Command::New => 2,
        Command::Cost => 3,
        Command::Tools => 4,
        Command::Model(_) => 5,
        Command::Sessions => 6,
        Command::Export(_) => 7,
        Command::Quit => 8,
        Command::Unknown(_) => 9,
    }
}

/// The command names the help text lists, each with the command it stands for.
pub open spec fn command_table() -> Seq<(Seq<char>, nat)> {
    seq![
        ("help"@, 0nat),
        ("h"@, 0nat),
        ("?"@, 0nat),
        ("clear"@, 1nat),
        ("new"@, 2nat),
        ("cost"@, 3nat),
        ("tools"@, 4nat),
        ("model"@, 5nat),
        ("sessions"@, 6nat),
        ("export"@, 7nat),
        ("quit"@, 8nat),
        ("exit"@, 8nat),
        ("q"@, 8nat),
    ]
}

proof fn lemma_command_table()
    ensures
        command_table().len() == 13,
        forall|a: int, b: int|
            0 <= a < 13 && 0 <= b < 13 && a != b ==> (#[trigger] command_table()[a]).0
                != (#[trigger] command_table()[b]).0,
{
    reveal_strlit("help");
    reveal_strlit("h");
    reveal_strlit("?");
    reveal_strlit("clear");
    reveal_strlit("new");
    reveal_strlit("cost");
    reveal_strlit("tools");
    reveal_strlit("model");
    reveal_strlit("sessions");
    reveal_strlit("export");
    reveal_strlit("quit");
    reveal_strlit("exit");
    reveal_strlit("q");
    let t = command_table();
    assert forall|a: int, b: int|
        0 <= a < 13 && 0 <= b < 13 && a != b implies (#[trigger] t[a]).0 != (#[trigger] t[b]).0 by {
        if t[a].0.len() == t[b].0.len() {
            assert(t[a].0[0] != t[b].0[0]);
        }
    }
}

/// A command name the help text lists stands for its command, and any other
/// name is an unknown command of that name.
pub proof fn law_command_names(c: Command, head: Seq<char>, rest: Seq<char>)
    requires
        command_for(c, head, rest),
    ensures
        forall|k: int|
            0 <= k < command_table().len() && head == (#[trigger] command_table()[k]).0
                ==> command_tag(c) == command_table()[k].1,
        (forall|k: int| 0 <= k < command_table().len() ==> head != (#[trigger] command_table()[k]).0)
            ==> (c matches Command::Unknown(n) && n@ == head),
{
    lemma_command_table();
    let t = command_table();
    assert forall|k: int| 0 <= k < t.len() && head == (#[trigger] t[k]).0 implies command_tag(c) == t[k].1 by {
        assert(t[k] == command_table()[k]);
    }
    if forall|k: int| 0 <= k < t.len() ==> head != (#[trigger] t[k]).0 {
        assert(head != t[0].0);
        assert(head != t[1].0);
        assert(head != t[2].0);
        assert(head != t[3].0);
        assert(head != t[4].0);
        assert(head != t[5].0);
        assert(head != t[6].0);
        assert(head != t[7].0);
        assert(head != t[8].0);
        assert(head != t[9].0);
        assert(head != t[10].0);
        assert(head != t[11].0);
        assert(head != t[12].0);
    }
}

proof fn lemma_first_ws(s: Seq<char>, k: int)
    requires
        0 <= k <= s.len(),
        forall|q: int| 0 <= q < k ==> !is_ws(s[q]),
    ensures
        first_ws(s.take(k)) is None,
    decreases k,
{
    if k > 0 {
        assert(s.take(k).drop_last() =~= s.take(k - 1));
        lemma_first_ws(s, k - 1);
    }
}

proof fn lemma_first_ws_extend(s: Seq<char>, k: int, p: int)
    requires
        0 < k <= s.len(),
        first_ws(s.take(k)) == Some(p),
    ensures
        first_ws(s) == Some(p),
    decreases s.len() - k,
{
    if k < s.len() {
        assert(s.take(k + 1).drop_last() =~= s.take(k));
        lemma_first_ws_extend(s, k + 1, p);
    } else {
        assert(s.take(k) =~= s);
    }
}

/// `splitn(2, char::is_whitespace)` on characters.
pub fn split_at_first_ws(v: &[char]) -> (r: (Vec<char>, Vec<char>))
    ensures
        (r.0@, r.1@) == split_head(v@),
{
    let mut i: usize = 0;
    while i < v.len() && !is_whitespace(v[i])
        invariant
            i <= v.len(),
            forall|q: int| 0 <= q < i ==> !is_ws(v@[q]),
        decreases v.len() - i,
    {
        i = i + 1;
    }
    proof {
        lemma_first_ws(v@, i as int);
    }
    if i < v.len() {
        proof {
            assert(v@.take(i + 1).drop_last() =~= v@.take(i as int));
            lemma_first_ws_extend(v@, i + 1, i as int);
        }
        (slice_range(v, 0, i), slice_from(v, i + 1))
    } else {
        assert(v@.take(v.len() as int) =~= v@);
        (slice_range(v, 0, i), Vec::new())
    }
}

/// Input that, trimmed, begins with `/`, and the command name and argument it holds.
pub open spec fn slash_parts(input: Seq<char>) -> Option<(Seq<char>, Seq<char>)> {
    let line = trim(input);
    if starts_with(line, "/"@) {
        let parts = split_head(line.drop_first());
        Some((parts.0, trim(parts.1)))
    } else {
        None
    }
}

impl Command {
    /// Input that begins with `/` (after trimming) is a command; other input is not.
    pub fn parse(input: &str) -> (r: Option<Command>)
        ensures
            match slash_parts(input@) {
                None => r is None,
                Some((head, rest)) => r matches Some(c) && command_for(c, head, rest),
            },
            match slash_parts(input@) {
                None => true,
                Some((head, rest)) => r matches Some(c) && forall|k: int|
                    0 <= k < command_table().len() && head == (#[trigger] command_table()[k]).0
                        ==> command_tag(c) == command_table()[k].1,
            },
    {
        let line = crate::text::trim_str(input);
        proof {
            reveal_strlit("/");
        }
        assert("/"@ =~= seq!['/']);
        if line.len() == 0 || line[0] != '/' {
            assert(!starts_with(line@, "/"@)) by {
                if line@.len() > 0 {
                    assert(line@.take(1)[0] == line@[0]);
                }
            }
            return None;
        }
        assert(line@.take(1) =~= "/"@);
        let body = slice_from(line.as_slice(), 1);
        assert(body@ =~= line@.drop_first());
        let (head_v, rest_raw) = split_at_first_ws(body.as_slice());
        let rest_v = trim_chars(rest_raw.as_slice());
        let head = head_v.as_slice();
        let cmd = if chars_eq_str(head, "help") || chars_eq_str(head, "h") || chars_eq_str(
            head,
            "?",
        ) {
            Command::Help
        } else if chars_eq_str(head, "clear") {
            Command::Clear
        } else if chars_eq_str(head, "new") {
            Command::New
        } else if chars_eq_str(head, "cost") {
            Command::Cost
        } else if chars_eq_str(head, "tools") {
            Command::Tools
        } else if chars_eq_str(head, "model") {
            if rest_v.len() == 0 {
                Command::Model(None)
            } else {
                Command::Model(Some(from_chars(rest_v.as_slice())))
            }
        } else if chars_eq_str(head, "sessions") {
            Command::Sessions
        } else if chars_eq_str(head, "export") {
            if rest_v.len() == 0 {
                Command::Export(String::from_str("md"))
            } else {
                Command::Export(from_chars(rest_v.as_slice()))
            }
        } else if chars_eq_str(head, "quit") || chars_eq_str(head, "exit") || chars_eq_str(
            head,
            "q",
        ) {
            Command::Quit
        } else {
            Command::Unknown(from_chars(head))
        };
        proof {
            law_command_names(cmd, head@, rest_v@);
        }
        Some(cmd)
    }
}

/// How the session loop takes one line of input.
#[derive(Debug)]
pub enum ReplInput {
    /// Blank input: nothing to do.
    Blank,
    /// A slash command.
    Slash(Command),
    /// A bare `quit`, `exit` or `q`.
    Quit,
    /// A prompt for the model; references are expanded when it holds an `@`.
    Prompt { text: String, expand: bool },
}

/// Takes one line of input: blank lines are skipped, slash commands come first,
/// bare `quit`/`exit`/`q` leave, and anything else is a (trimmed) prompt.
pub fn classify_input(input: &str) -> (r: ReplInput)
    ensures
        trim(input@).len() == 0 ==> r is Blank,
        trim(input@).len() > 0 ==> match slash_parts(trim(input@)) {
            Some((head, rest)) => r matches ReplInput::Slash(c) && command_for(c, head, rest),
            None => true,
        },
        trim(input@).len() > 0 && slash_parts(trim(input@)) is None ==> {
            let t = trim(input@);
            if t == "quit"@ || t == "exit"@ || t == "q"@ {
                r is Quit
            } else {
                r matches ReplInput::Prompt { text, expand } && text@ == t && expand == t.contains(
                    '@',
                )
            }
        },
{
    let t = crate::text::trim_str(input);
    if t.len() == 0 {
        return ReplInput::Blank;
    }
    let line = from_chars(t.as_slice());
    match Command::parse(line.as_str()) {
        Some(c) => ReplInput::Slash(c),
        None => {
            let ts = t.as_slice();
            if chars_eq_str(ts, "quit") || chars_eq_str(ts, "exit") || chars_eq_str(ts, "q") {
                ReplInput::Quit
            } else {
                let mut has_at = false;
                let mut i: usize = 0;
                while i < t.len()
                    invariant
                        i <= t.len(),
                        has_at == exists|q: int| 0 <= q < i && t@[q] == '@',
                    decreases t.len() - i,
                {
                    if t[i] == '@' {
                        has_at = true;
                    }
                    i = i + 1;
                }
                assert(has_at == t@.contains('@'));
                ReplInput::Prompt { text: line, expand: has_at }
            }
        },
    }
}

// ─── One-shot mode ───

/// Whether one-shot mode reads its prompt from standard input: when `-p` gave
/// none, or only white space.
pub fn prompt_from_stdin(arg: Option<&str>) -> (r: bool)
    ensures
        r == match arg {
            Some(p) => trim(p@).len() == 0,
            None => true,
        },
{
    match arg {
        Some(p) => trim_str(p).len() == 0,
        None => true,
    }
}

/// The one-shot prompt: the input without surrounding white space; `None`
/// when nothing is left, which one-shot mode refuses.
pub fn oneshot_prompt(raw: &str) -> (r: Option<String>)
    ensures
        match r {
            Some(s) => s@ == trim(raw@) && s@.len() > 0,
            None => trim(raw@).len() == 0,
        },
{
    let t = trim_str(raw);
    if t.len() == 0 {
        None
    } else {
        Some(from_chars(t.as_slice()))
    }
}

} // verus!
