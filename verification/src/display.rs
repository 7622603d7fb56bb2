//! How the command line shows things: shortened names, one-line summaries of
//! tool inputs, the tool list and the help text.
use vstd::prelude::*;
use crate::text::{from_chars, lines, push_chars, push_decimal, decimal, split_lines, to_chars};

verus! {

broadcast use vstd::string::group_string_axioms;

/// `s` cut to `max` characters: when it is longer, its first `max - 2`
/// characters and `..`.
pub open spec fn clip(s: Seq<char>, max: nat) -> Seq<char> {
    if s.len() <= max {
        s
    } else {
        s.take(max - 2) + ".."@
    }
}

fn clip_chars(v: &[char], max: usize) -> (r: Vec<char>)
    requires
        max >= 2 || v@.len() <= max,
    ensures
        r@ == clip(v@, max as nat),
{
    proof {
        reveal_strlit("..");
    }
    if v.len() <= max {
        let mut out: Vec<char> = Vec::new();
        out.extend_from_slice(v);
        out
    } else {
        let mut out = crate::text::slice_range(v, 0, max - 2);
        out.push('.');
        out.push('.');
        assert(out@ =~= v@.take(max - 2) + ".."@);
        out
    }
}

/// A name shortened to `max_len` characters for a table column.
pub fn truncate(s: &str, max_len: usize) -> (r: String)
    requires
        max_len >= 2 || s@.len() <= max_len,
    ensures
        r@ == clip(s@, max_len as nat),
{
    let v = to_chars(s);
    let c = clip_chars(v.as_slice(), max_len);
    from_chars(c.as_slice())
}

/// A JSON value as a summary shows it: strings with their text, numbers with
/// their JSON text, and arrays and objects by their size.
#[derive(Debug)]
pub enum JsonShape {
    Text(String),
    Null,
    Bool(bool),
    Number(String),
    Array(usize),
    Object(usize),
}

/// A short rendering of a value: a quoted string (shortened past 20 characters),
/// `null`, `true`/`false`, the number, `[n]` or `{n}`.
pub open spec fn short_text(v: JsonShape) -> Seq<char> {
    match v {
        JsonShape::Text(s) => if s@.len() > 20 {
            "\""@ + s@.take(18) + "..\""@
        } else {
            "\""@ + s@ + "\""@
        },
        JsonShape::Null => "null"@,
        JsonShape::Bool(b) => if b {
            "true"@
        } else {
            "false"@
        },
        JsonShape::Number(n) => n@,
        JsonShape::Array(n) => "["@ + decimal(n as nat) + "]"@,
        JsonShape::Object(n) => "{"@ + decimal(n as nat) + "}"@,
    }
}

pub fn short_value(v: &JsonShape) -> (r: String)
    ensures
        r@ == short_text(*v),
{
    match v {
        JsonShape::Text(s) => {
            let cs = to_chars(s.as_str());
            let mut out = String::from_str("\"");
            if cs.len() > 20 {
                let head = crate::text::slice_range(cs.as_slice(), 0, 18);
                push_chars(&mut out, head.as_slice());
                out.append("..\"");
            } else {
                out.append(s.as_str());
                out.append("\"");
            }
            out
        },
        JsonShape::Null => String::from_str("null"),
        JsonShape::Bool(b) => if *b {
            String::from_str("true")
        } else {
            String::from_str("false")
        },
        JsonShape::Number(n) => n.clone(),
        JsonShape::Array(n) => {
            let mut out = String::from_str("[");
            push_decimal(&mut out, *n as u64);
            out.append("]");
            out
        },
        JsonShape::Object(n) => {
            let mut out = String::from_str("{");
            push_decimal(&mut out, *n as u64);
            out.append("}");
            out
        },
    }
}

/// A tool input as its summary sees it: an object's entries in order, or one
/// other value.
#[derive(Debug)]
pub enum InputShape {
    Object(Vec<(String, JsonShape)>),
    Other(JsonShape),
}

/// `k=v` for the first `n` entries, joined by `, `.
pub open spec fn entries_text(es: Seq<(String, JsonShape)>, n: int) -> Seq<char>
    decreases n,
{
    if n <= 0 || es.len() == 0 {
        seq![]
    } else if n == 1 {
        es[0].0@ + "="@ + short_text(es[0].1)
    } else if n > es.len() {
        entries_text(es, es.len() as int)
    } else {
        entries_text(es, n - 1) + ", "@ + es[n - 1].0@ + "="@ + short_text(es[n - 1].1)
    }
}

/// A one-line summary of a tool's input, at most 60 characters: an object's
/// first four entries as `k=v`, or the short rendering of another value.
pub open spec fn input_summary(input: InputShape) -> Seq<char> {
    clip(
        match input {
            InputShape::Object(es) => entries_text(es@, 4),
            InputShape::Other(v) => short_text(v),
        },
        60,
    )
}

pub fn summarize_input(input: &InputShape) -> (r: String)
    ensures
        r@ == input_summary(*input),
{
    let s = match input {
        InputShape::Object(es) => {
            let n: usize = if es.len() < 4 {
                es.len()
            } else {
                4
            };
            let mut out = String::new();
            let mut i: usize = 0;
            while i < n
                invariant
                    i <= n,
                    n <= es@.len(),
                    n == (if es@.len() < 4 { es@.len() } else { 4 }),
                    out@ == entries_text(es@, i as int),
                decreases n - i,
            {
                if i > 0 {
                    out.append(", ");
                }
                out.append(es[i].0.as_str());
                out.append("=");
                let v = short_value(&es[i].1);
                out.append(v.as_str());
                i = i + 1;
            }
            proof {
                if es@.len() < 4 && es@.len() > 0 {
                    assert(entries_text(es@, 4) == entries_text(es@, es@.len() as int));
                }
            }
            out
        },
        InputShape::Other(v) => short_value(v),
    };
    truncate(s.as_str(), 60)
}

/// `s` padded with spaces to `width` characters (`{:<width}`).
pub open spec fn pad_right(s: Seq<char>, width: nat) -> Seq<char> {
    if s.len() >= width {
        s
    } else {
        s + Seq::new((width - s.len()) as nat, |i: int| ' ')
    }
}

/// The first line of a text, or nothing.
pub open spec fn first_line(s: Seq<char>) -> Seq<char> {
    if lines(s).len() > 0 {
        lines(s)[0]
    } else {
        seq![]
    }
}

/// One line of the tool list: `  · {name:<22} {first line of the description,
/// at most 60 characters}`.
pub open spec fn tool_line_text(name: Seq<char>, description: Seq<char>) -> Seq<char> {
    "  · "@ + pad_right(name, 22) + " "@ + clip(first_line(description), 60)
}

pub fn tool_line(name: &str, description: &str) -> (r: String)
    ensures
        r@ == tool_line_text(name@, description@),
{
    let dv = to_chars(description);
    let ls = split_lines(dv.as_slice());
    let first: Vec<char> = if ls.len() > 0 {
        let mut f: Vec<char> = Vec::new();
        f.extend_from_slice(ls[0].as_slice());
        f
    } else {
        Vec::new()
    };
    let desc = clip_chars(first.as_slice(), 60);
    let mut out = String::from_str("  · ");
    let nv = to_chars(name);
    push_chars(&mut out, nv.as_slice());
    let mut k: usize = nv.len();
    let ghost base = out@;
    while k < 22
        invariant
            nv.len() <= 22 ==> nv.len() <= k <= 22,
            nv.len() > 22 ==> k == nv.len(),
            out@ == base + Seq::new((k - nv.len()) as nat, |i: int| ' '),
        decreases 22 - k,
    {
        push_char_space(&mut out);
        k = k + 1;
        assert(out@ =~= base + Seq::new((k - nv.len()) as nat, |i: int| ' '));
    }
    proof {
        if nv.len() >= 22 {
            assert(Seq::new(0, |i: int| ' ') =~= Seq::<char>::empty());
            assert(out@ =~= base);
        }
    }
    out.append(" ");
    push_chars(&mut out, desc.as_slice());
    proof {
        assert(out@ =~= "  · "@ + pad_right(name@, 22) + " "@ + clip(first_line(description@), 60));
    }
    out
}

fn push_char_space(s: &mut String)
    ensures
        final(s)@ == old(s)@.push(' '),
{
    crate::text::push_char(s, ' ');
}

/// The slash commands, as `/help` lists them.
pub const HELP_TEXT: &'static str = "可用斜杠命令：\n\x20 /help, /h, /?       显示本帮助\n\x20 /clear, /new        清空当前会话上下文\n\x20 /cost               查看 token 用量\n\x20 /tools              列出已加载工具\n\x20 /model [name]       查看或切换模型\n\x20 /sessions           列出历史 session\n\x20 /export [md|json]   导出当前会话\n\x20 /quit, /exit, /q    退出";

/// The heading of the tool list: `已加载 {n} 个工具：`.
pub fn tools_heading(n: usize) -> (r: String)
    ensures
        r@ == "已加载 "@ + decimal(n as nat) + " 个工具："@,
{
    let mut s = String::from_str("已加载 ");
    push_decimal(&mut s, n as u64);
    s.append(" 个工具：");
    s
}

} // verus!
