//! How the outcome of a shell command is put to a model.

use vstd::prelude::*;

use crate::text;

verus! {

broadcast use vstd::string::group_string_axioms;

/// Seconds that a command may take.
pub const BASH_TIMEOUT: u64 = 120;

/// Bytes of long output that are kept at its beginning.
pub const HEAD_BYTES: usize = 6000;

/// Bytes of long output that are kept at its end.
pub const TAIL_BYTES: usize = 6000;

/// What came of a command.
pub enum BashRun {
    NotStarted(String),
    TimedOut,
    Unread(String),
    Finished { code: Option<i32>, stdout: String, stderr: String },
}

/// The beginning and the end of a text that is too long: the characters that lie
/// within the first `head` and within the last `tail` bytes, and between them how
/// many bytes are left out.
pub open spec fn middle_cut(s: Seq<char>, head: int, tail: int) -> Seq<char> {
    if text::bytes(s) <= head + tail {
        s
    } else {
        let a = text::chars_within(s, head);
        let b = text::chars_reaching(s, text::bytes(s) - tail);
        s.take(a) + "\n[… "@ + text::decimal(text::bytes(s.take(b)) - text::bytes(s.take(a)))
            + " bytes elided …]\n"@ + s.skip(b)
    }
}

/// The beginning and the end of a text that is too long.
pub fn truncate_middle(s: &str, head: usize, tail: usize) -> (r: String)
    ensures
        r@ == middle_cut(s@, head as int, tail as int),
{
    let total: usize = text::byte_len(s);
    if total <= head || total - head <= tail {
        return s.to_owned();
    }
    let a: usize = text::count_within(s, head);
    let b: usize = text::count_reaching(s, total - tail);
    let letters = text::chars(s);
    let front = text::slice(&letters, 0, a);
    let back = text::slice(&letters, b, letters.len());
    let upto = text::slice(&letters, 0, b);
    proof {
        assert(front@ =~= s@.take(a as int));
        assert(back@ =~= s@.skip(b as int));
        assert(upto@ =~= s@.take(b as int));
        lemma_front_before_back(s@, head as int, total - tail);
    }
    let elided: usize = text::byte_len(&upto) - text::byte_len(&front);
    let mut out = front;
    out.append("\n[… ");
    out.append(&text::decimal_u64(elided as u64));
    out.append(" bytes elided …]\n");
    out.append(&back);
    out
}

proof fn lemma_reaching_range(s: Seq<char>, n: int)
    ensures
        0 <= text::chars_reaching(s, n) <= s.len(),
        n <= text::bytes(s) ==> text::bytes(s.take(text::chars_reaching(s, n))) >= n,
    decreases s.len(),
{
    if s.len() > 0 {
        let init = s.drop_last();
        assert(s.take(s.len() as int) =~= s);
        if text::bytes(init) >= n {
            lemma_reaching_range(init, n);
            let k = text::chars_reaching(init, n);
            assert(init.take(k) =~= s.take(k));
        }
    } else {
        assert(s.take(0) =~= s);
    }
}

proof fn lemma_front_before_back(s: Seq<char>, head: int, from: int)
    requires
        0 <= head <= from <= text::bytes(s),
    ensures
        text::bytes(s.take(text::chars_within(s, head))) <= text::bytes(
            s.take(text::chars_reaching(s, from)),
        ),
{
    text::the_longest_prefix_fits(s, head);
    lemma_reaching_range(s, from);
}

/// What came of a command that finished: how it ended, what it wrote, and what it
/// wrote about errors.
pub open spec fn finished_text(code: Option<int>, stdout: Seq<char>, stderr: Seq<char>) -> Seq<char> {
    let ended = match code {
        Some(n) => "exit code: "@ + text::decimal(n),
        None => "terminated by signal"@,
    };
    let out = if text::blank(stdout) {
        Seq::<Seq<char>>::empty()
    } else {
        seq![middle_cut(text::trim_end(stdout), HEAD_BYTES as int, TAIL_BYTES as int)]
    };
    let err = if text::blank(stderr) {
        Seq::<Seq<char>>::empty()
    } else {
        seq![
            "stderr:\n"@ + middle_cut(
                text::trim_end(stderr),
                HEAD_BYTES as int,
                TAIL_BYTES as int,
            ),
        ]
    };
    let none = if text::blank(stdout) && text::blank(stderr) {
        seq!["(no output)"@]
    } else {
        Seq::<Seq<char>>::empty()
    };
    text::joined(seq![ended] + out + err + none, "\n"@)
}

/// The number behind an optional exit code.
pub open spec fn code_of(code: Option<i32>) -> Option<int> {
    match code {
        Some(n) => Some(n as int),
        None => None,
    }
}

/// What came of a command that finished.
pub fn render_result(exit_code: Option<i32>, stdout: &str, stderr: &str) -> (r: String)
    ensures
        r@ == finished_text(code_of(exit_code), stdout@, stderr@),
{
    let mut parts: Vec<String> = Vec::new();
    match exit_code {
        Some(n) => {
            parts.push(text::concat2("exit code: ", &text::decimal_i64(n as i64)));
        },
        None => {
            parts.push("terminated by signal".to_owned());
        },
    }
    let quiet_out = text::is_blank(stdout);
    let quiet_err = text::is_blank(stderr);
    let ghost want0 = text::views(parts@);
    assert(want0 =~= seq![
        match code_of(exit_code) {
            Some(n) => "exit code: "@ + text::decimal(n),
            None => "terminated by signal"@,
        },
    ]);
    if !quiet_out {
        parts.push(truncate_middle(&text::trimmed_end(stdout), HEAD_BYTES, TAIL_BYTES));
    }
    let ghost out = if quiet_out {
        Seq::<Seq<char>>::empty()
    } else {
        seq![middle_cut(text::trim_end(stdout@), HEAD_BYTES as int, TAIL_BYTES as int)]
    };
    assert(text::views(parts@) =~= want0 + out);
    if !quiet_err {
        parts.push(
            text::concat2(
                "stderr:\n",
                &truncate_middle(&text::trimmed_end(stderr), HEAD_BYTES, TAIL_BYTES),
            ),
        );
    }
    let ghost err = if quiet_err {
        Seq::<Seq<char>>::empty()
    } else {
        seq![
            "stderr:\n"@ + middle_cut(
                text::trim_end(stderr@),
                HEAD_BYTES as int,
                TAIL_BYTES as int,
            ),
        ]
    };
    assert(text::views(parts@) =~= want0 + out + err);
    if quiet_out && quiet_err {
        parts.push("(no output)".to_owned());
    }
    let ghost none = if quiet_out && quiet_err {
        seq!["(no output)"@]
    } else {
        Seq::<Seq<char>>::empty()
    };
    assert(text::views(parts@) =~= want0 + out + err + none);
    text::join(&parts, "\n")
}

/// What came of a command, as a model is told. A failure is part of what it is
/// told, never an end of its turn.
pub open spec fn told(run: BashRun) -> Seq<char> {
    match run {
        BashRun::NotStarted(reason) => "failed to run bash: "@ + reason@,
        BashRun::TimedOut => "timed out after "@ + text::decimal(BASH_TIMEOUT as int)
            + "s — command killed"@,
        BashRun::Unread(reason) => "failed to read command output: "@ + reason@,
        BashRun::Finished { code, stdout, stderr } => finished_text(
            code_of(code),
            stdout@,
            stderr@,
        ),
    }
}

/// What came of a command, as a model is told.
pub fn render_run(run: &BashRun) -> (r: String)
    ensures
        r@ == told(*run),
{
    match run {
        BashRun::NotStarted(reason) => text::concat2("failed to run bash: ", reason),
        BashRun::TimedOut => text::concat3(
            "timed out after ",
            &text::decimal_u64(BASH_TIMEOUT),
            "s — command killed",
        ),
        BashRun::Unread(reason) => text::concat2("failed to read command output: ", reason),
        BashRun::Finished { code, stdout, stderr } => render_result(*code, stdout, stderr),
    }
}

// ---------------------------------------------------------------------------
// Laws

/// Short output is kept whole.
pub proof fn short_output_is_whole(s: Seq<char>, head: int, tail: int)
    requires
        text::bytes(s) <= head + tail,
    ensures
        middle_cut(s, head, tail) == s,
{
}

/// Of long output both ends are kept, each within its limit.
pub proof fn both_ends_are_kept(s: Seq<char>, head: int, tail: int)
    requires
        0 <= head,
        0 <= tail,
        text::bytes(s) > head + tail,
    ensures
        ({
            let a = text::chars_within(s, head);
            let b = text::chars_reaching(s, text::bytes(s) - tail);
            &&& text::bytes(s.take(a)) <= head
            &&& text::bytes(s.skip(b)) <= tail
            &&& middle_cut(s, head, tail).take(a) == s.take(a)
            &&& middle_cut(s, head, tail).skip(
                middle_cut(s, head, tail).len() - s.skip(b).len(),
            ) == s.skip(b)
        }),
{
    let a = text::chars_within(s, head);
    let n = text::bytes(s) - tail;
    let b = text::chars_reaching(s, n);
    text::the_longest_prefix_fits(s, head);
    lemma_reaching_range(s, n);
    assert(s =~= s.take(b) + s.skip(b));
    text::lemma_bytes_add(s.take(b), s.skip(b));
    let whole = middle_cut(s, head, tail);
    assert(whole.take(a) =~= s.take(a));
    assert(whole.skip(whole.len() - s.skip(b).len()) =~= s.skip(b));
}

proof fn lemma_listed(parts: Seq<Seq<char>>, i: int)
    requires
        0 <= i < parts.len(),
    ensures
        text::within(text::joined(parts, "\n"@), parts[i]),
{
    text::every_part_is_joined(parts, "\n"@, i);
}

/// A model is told how a command ended and what it printed, on either stream; that
/// it printed nothing is told too.
pub proof fn outcomes_are_told(code: Option<int>, stdout: Seq<char>, stderr: Seq<char>)
    ensures
        ({
            let told = finished_text(code, stdout, stderr);
            &&& code matches Some(n) ==> text::within(told, "exit code: "@ + text::decimal(n))
            &&& code is None ==> text::within(told, "terminated by signal"@)
            &&& !text::blank(stdout) && text::bytes(text::trim_end(stdout)) <= 12_000
                ==> text::within(told, text::trim_end(stdout))
            &&& !text::blank(stderr) && text::bytes(text::trim_end(stderr)) <= 12_000
                ==> text::within(told, "stderr:\n"@ + text::trim_end(stderr))
            &&& text::blank(stdout) && text::blank(stderr) ==> text::within(told, "(no output)"@)
        }),
{
    let ended = match code {
        Some(n) => "exit code: "@ + text::decimal(n),
        None => "terminated by signal"@,
    };
    let out = if text::blank(stdout) {
        Seq::<Seq<char>>::empty()
    } else {
        seq![middle_cut(text::trim_end(stdout), HEAD_BYTES as int, TAIL_BYTES as int)]
    };
    let err = if text::blank(stderr) {
        Seq::<Seq<char>>::empty()
    } else {
        seq![
            "stderr:\n"@ + middle_cut(
                text::trim_end(stderr),
                HEAD_BYTES as int,
                TAIL_BYTES as int,
            ),
        ]
    };
    let none = if text::blank(stdout) && text::blank(stderr) {
        seq!["(no output)"@]
    } else {
        Seq::<Seq<char>>::empty()
    };
    let parts = seq![ended] + out + err + none;
    assert(parts[0] == ended);
    lemma_listed(parts, 0);
    if !text::blank(stdout) {
        assert(parts[1] == out[0]);
        lemma_listed(parts, 1);
    }
    if !text::blank(stderr) {
        let at = 1 + out.len() as int;
        assert(parts[at] == err[0]);
        lemma_listed(parts, at);
    }
    if text::blank(stdout) && text::blank(stderr) {
        assert(parts[1] == "(no output)"@);
        lemma_listed(parts, 1);
    }
}

/// A command that did not run to its end is told with its reason.
pub proof fn failures_are_told(run: BashRun)
    ensures
        run matches BashRun::NotStarted(reason) ==> told(run) == "failed to run bash: "@ + reason@,
        run matches BashRun::Unread(reason) ==> told(run) == "failed to read command output: "@
            + reason@,
        run is TimedOut ==> told(run) == "timed out after "@ + text::decimal(120)
            + "s — command killed"@,
        run matches BashRun::Finished { code, stdout, stderr } ==> told(run) == finished_text(
            match code {
                Some(n) => Some(n as int),
                None => None,
            },
            stdout@,
            stderr@,
        ),
{
}

/// Of an output that is too long the middle is left out, and the text says how many
/// bytes that is.
pub proof fn what_is_left_out_is_counted(s: Seq<char>, head: int, tail: int)
    requires
        0 <= head,
        0 <= tail,
        text::bytes(s) > head + tail,
    ensures
        exists|a: int, b: int|
            0 <= a <= b <= s.len() && #[trigger] text::bytes(s.take(a)) <= head
                && #[trigger] text::bytes(s.skip(b)) <= tail && middle_cut(s, head, tail) == s.take(a)
                + "\n[… "@ + text::decimal(text::bytes(s) - text::bytes(s.take(a)) - text::bytes(
                s.skip(b),
            )) + " bytes elided …]\n"@ + s.skip(b),
{
    both_ends_are_kept(s, head, tail);
    let a = text::chars_within(s, head);
    let b = text::chars_reaching(s, text::bytes(s) - tail);
    lemma_ends_in_order(s, head, tail);
    text::lemma_bytes_add(s.take(b), s.skip(b));
    assert(s.take(b) + s.skip(b) =~= s);
    assert(text::bytes(s.take(a)) <= head && text::bytes(s.skip(b)) <= tail);
}

proof fn lemma_ends_in_order(s: Seq<char>, head: int, tail: int)
    requires
        0 <= head,
        0 <= tail,
        text::bytes(s) > head + tail,
    ensures
        0 <= text::chars_within(s, head) <= text::chars_reaching(s, text::bytes(s) - tail)
            <= s.len(),
{
    let a = text::chars_within(s, head);
    let b = text::chars_reaching(s, text::bytes(s) - tail);
    both_ends_are_kept(s, head, tail);
    text::the_longest_prefix_fits(s, head);
    lemma_reaching_range(s, text::bytes(s) - tail);
    if a > b {
        text::lemma_bytes_add(s.take(b), s.subrange(b, a));
        assert(s.take(b) + s.subrange(b, a) =~= s.take(a));
        text::lemma_bytes_add(s.take(b), s.skip(b));
        assert(s.take(b) + s.skip(b) =~= s);
    }
}

} // verus!
