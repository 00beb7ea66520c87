use crate::lines::lines_of;
use crate::text::{chars_of, push_char, string_of};
use crate::util::html_comment_wrap;
use vstd::prelude::*;

verus! {

/// `msg` centred between two equal runs of `fill`, within `length` characters; `msg`
/// alone when it is already that long.
pub open spec fn step_text(msg: Seq<char>, length: nat, fill: char) -> Seq<char> {
    if msg.len() >= length {
        msg
    } else {
        let pad = Seq::new(((length - msg.len()) / 2) as nat, |i: int| fill);
        pad + msg + pad
    }
}

/// A header line for a step of the program.
pub fn step_line(msg: &str, length: usize, fillchar: char) -> (r: String)
    ensures
        r@ == step_text(msg@, length as nat, fillchar),
        r@.len() <= if msg@.len() >= length {
            msg@.len()
        } else {
            length as nat
        },
{
    let m = msg.unicode_len();
    if m >= length {
        return String::from_str(msg);
    }
    let n = (length - m) / 2;
    let mut pad = String::new();
    let mut i: usize = 0;
    while i < n
        invariant
            i <= n,
            pad@ == Seq::new(i as nat, |k: int| fillchar),
        decreases n - i,
    {
        push_char(&mut pad, fillchar);
        i += 1;
        assert(pad@ =~= Seq::new(i as nat, |k: int| fillchar));
    }
    let mut r = pad.clone();
    r.append(msg);
    r.append(pad.as_str());
    r
}

/// The icon shown before a status message: success, error, warning, or information.
pub open spec fn icon_of(status: u8) -> Seq<char> {
    if status == 0 {
        "✅"@
    } else if status == 1 {
        "❌"@
    } else if status == 2 {
        "⚠️"@
    } else {
        "ℹ️"@
    }
}

/// A status message preceded by its icon and a space.
pub fn status_line(msg_body: &str, status: u8) -> (r: String)
    ensures
        r@ == icon_of(status) + " "@ + msg_body@,
{
    let mut r = if status == 0 {
        String::from_str("✅")
    } else if status == 1 {
        String::from_str("❌")
    } else if status == 2 {
        String::from_str("⚠️")
    } else {
        String::from_str("ℹ️")
    };
    r.append(" ");
    r.append(msg_body);
    r
}

/// What is written for a saved password: its line wrapped in an HTML comment, after the
/// text of the input configuration file when the result goes to another file.
pub open spec fn record_text(result: Seq<char>, same_file: bool, input_text: Seq<char>) -> Seq<
    char,
> {
    let wrapped = "<!-- "@ + result + " -->"@;
    if same_file {
        wrapped
    } else {
        input_text + "\n"@ + wrapped
    }
}

/// The text to save for `result`: see `record_text`.
pub fn save_record(result: &str, same_file: bool, input_text: &str) -> (r: String)
    ensures
        r@ == record_text(result@, same_file, input_text@),
{
    let wrapped = html_comment_wrap(result);
    if same_file {
        wrapped
    } else {
        let mut r = String::from_str(input_text);
        r.append("\n");
        r.append(wrapped.as_str());
        r
    }
}

/// Lines joined with `\n` between them.
pub open spec fn joined(ls: Seq<Seq<char>>) -> Seq<char>
    decreases ls.len(),
{
    if ls.len() == 0 {
        Seq::empty()
    } else if ls.len() == 1 {
        ls[0]
    } else {
        joined(ls.drop_last()) + seq!['\n'] + ls.last()
    }
}

/// A file's text with `line` added as its last line.
pub fn append_line(content: &str, line: &str) -> (r: String)
    ensures
        r@ == joined(lines_of(content@).push(line@)),
{
    let ls = crate::lines::text_lines(content);
    let ghost g = lines_of(content@).push(line@);
    let mut r: Vec<char> = Vec::new();
    let mut i: usize = 0;
    while i < ls.len()
        invariant
            i <= ls.len(),
            ls.len() + 1 == g.len(),
            forall|k: int| 0 <= k < ls.len() ==> #[trigger] ls@[k]@ == g[k],
            r@ == joined(g.take(i as int)),
        decreases ls.len() - i,
    {
        assert(g.take(i + 1).drop_last() =~= g.take(i as int));
        if i > 0 {
            r.push('\n');
        }
        let p = &ls[i];
        let mut k: usize = 0;
        let ghost r0 = r@;
        while k < p.len()
            invariant
                k <= p.len(),
                r@ == r0 + p@.take(k as int),
            decreases p.len() - k,
        {
            r.push(p[k]);
            k += 1;
            assert(r@ =~= r0 + p@.take(k as int));
        }
        assert(p@.take(p.len() as int) =~= p@);
        assert(r@ =~= joined(g.take(i + 1)));
        i += 1;
    }
    let l = chars_of(line);
    assert(g.take(g.len() - 1) =~= g.take(i as int));
    if ls.len() > 0 {
        r.push('\n');
    }
    let ghost r0 = r@;
    let mut k: usize = 0;
    while k < l.len()
        invariant
            k <= l.len(),
            r@ == r0 + l@.take(k as int),
        decreases l.len() - k,
    {
        r.push(l[k]);
        k += 1;
        assert(r@ =~= r0 + l@.take(k as int));
    }
    assert(l@.take(l.len() as int) =~= l@);
    assert(g.take(g.len() as int) =~= g);
    assert(r@ =~= joined(g));
    string_of(&r)
}

} // verus!
