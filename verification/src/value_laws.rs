//! What the small values mean: texts, spans of time, namespaces, modes, errors.

use vstd::prelude::*;

use crate::error::SandboxError;
use crate::namespace::NamespaceConfig;
use crate::privilege::ResolvedMode;
use crate::seccomp::{SeccompFilter, SeccompProfile};
use crate::text::{
    concat, decimal, decimal_text, digit, digits, has_char, joined, pieces, split, split_then_join,
    texts,
};
use crate::time::Duration;

verus! {

/// The views of strings are the strings' own texts, one each, in order.
pub proof fn texts_are_views(s: Seq<String>)
    ensures
        texts(s).len() == s.len(),
        forall|i: int| 0 <= i < s.len() ==> (#[trigger] texts(s)[i]) == s[i]@,
{
}

/// Concatenating puts the second text behind the first, and nothing else.
pub proof fn concat_puts_texts_in_a_row(a: &str, b: &str, r: String)
    requires
        call_ensures(concat, (a, b), r),
    ensures
        r@.len() == a@.len() + b@.len(),
        forall|i: int| 0 <= i < a@.len() ==> (#[trigger] r@[i]) == a@[i],
        forall|i: int| 0 <= i < b@.len() ==> r@[a@.len() + i] == (#[trigger] b@[i]),
{
}

/// A text holds a character if and only if one of its characters is that one.
pub proof fn has_char_looks_everywhere(s: &str, c: char, r: bool)
    requires
        call_ensures(has_char, (s, c), r),
    ensures
        r <==> exists|i: int| 0 <= i < s@.len() && s@[i] == c,
{
}

/// Splitting gives parts without the separator that make up the text again,
/// with one separator between neighbours. There is one part more than there
/// are separators.
pub proof fn split_parts_make_up_the_text(s: &str, sep: char, r: Vec<String>)
    requires
        call_ensures(split, (s, sep), r),
    ensures
        joined(texts(r@), sep) == s@,
        forall|i: int| 0 <= i < r@.len() ==> !(#[trigger] r@[i])@.contains(sep),
        r@.len() == s@.filter(|c: char| c == sep).len() + 1,
{
    split_then_join(s@, sep);
    lemma_pieces_count(s@, sep);
    assert(texts(r@).len() == r@.len());
    assert forall|i: int| 0 <= i < r@.len() implies !(#[trigger] r@[i])@.contains(sep) by {
        assert(texts(r@)[i] == r@[i]@);
        assert(!pieces(s@, sep)[i].contains(sep));
    }
}

proof fn lemma_pieces_count(s: Seq<char>, sep: char)
    ensures
        pieces(s, sep).len() == s.filter(|c: char| c == sep).len() + 1,
    decreases s.len(),
{
    let keep = |c: char| c == sep;
    reveal(Seq::filter);
    if s.len() > 0 {
        lemma_pieces_count(s.drop_last(), sep);
        assert(s.filter(keep) == if keep(s.last()) {
            s.drop_last().filter(keep).push(s.last())
        } else {
            s.drop_last().filter(keep)
        });
    }
}

/// The number that a row of decimal digits stands for.
pub open spec fn number_of(s: Seq<char>) -> int
    decreases s.len(),
{
    if s.len() == 0 {
        0
    } else {
        number_of(s.drop_last()) * 10 + (s.last() as int - '0' as int)
    }
}

/// Every character is a decimal digit.
pub open spec fn all_digits(s: Seq<char>) -> bool {
    forall|i: int| 0 <= i < s.len() ==> '0' <= #[trigger] s[i] <= '9'
}

proof fn lemma_digits(n: nat)
    ensures
        number_of(digits(n)) == n,
        all_digits(digits(n)),
        digits(n).len() > 0,
        n > 0 ==> digits(n)[0] != '0',
    decreases n,
{
    if n < 10 {
        let s = digits(n);
        assert(s =~= seq![digit(n as int)]);
        assert(s.drop_last() =~= Seq::empty());
        assert(number_of(s.drop_last()) == 0);
    } else {
        lemma_digits(n / 10);
        let front = digits(n / 10);
        let s = digits(n);
        assert(s.drop_last() =~= front);
        assert(s.last() == digit((n % 10) as int));
        assert(s[0] == front[0]);
    }
}

/// A number in decimal can be read back: a minus sign for a negative one, then
/// digits alone that stand for its magnitude, with no zero in front.
pub proof fn decimal_can_be_read_back(n: i32, r: String)
    requires
        call_ensures(decimal_text, (n,), r),
    ensures
        n >= 0 ==> all_digits(r@) && number_of(r@) == n && (r@[0] == '0' ==> n == 0),
        n < 0 ==> r@[0] == '-' && all_digits(r@.skip(1)) && number_of(r@.skip(1)) == -n && r@[1]
            != '0',
        r@.len() > 0,
{
    if n < 0 {
        lemma_digits((-n) as nat);
        assert(r@.skip(1) =~= digits((-n) as nat));
        assert(r@ == decimal(n as int));
    } else {
        lemma_digits(n as nat);
        assert(r@ == decimal(n as int));
    }
}

/// A span reaches another if and only if it is not the shorter one: its seconds
/// decide, and where they are equal, its nanoseconds.
pub proof fn reaching_compares_spans(a: Duration, b: Duration, r: bool)
    requires
        call_ensures(Duration::reaches, (&a, &b), r),
    ensures
        r <==> a.secs * 1_000_000_000 + a.nanos >= b.secs * 1_000_000_000 + b.nanos,
        a.nanos < 1_000_000_000 && b.nanos < 1_000_000_000 ==> (r <==> a.secs > b.secs || (a.secs
            == b.secs && a.nanos >= b.nanos)),
        a.wf() <==> a.nanos < 1_000_000_000,
{
    assert(a.total() == a.secs * 1_000_000_000 + a.nanos);
    assert(b.total() == b.secs * 1_000_000_000 + b.nanos);
}

/// The nanoseconds of a span count its seconds and what is beyond them.
pub proof fn nanoseconds_count_all(d: Duration, r: u128)
    requires
        call_ensures(Duration::as_nanos, (&d,), r),
    ensures
        r == d.secs * 1_000_000_000 + d.nanos,
{
}

/// The whole milliseconds of a span are those that fit into it; of a span that
/// is too long the lowest 64 bits are kept.
pub proof fn milliseconds_are_whole(d: Duration, r: u64)
    requires
        call_ensures(Duration::millis_u64, (&d,), r),
    ensures
        r == (d.secs * 1000 + d.nanos / 1_000_000) % 0x1_0000_0000_0000_0000,
        d.secs <= 0x10_0000_0000_0000 ==> r * 1_000_000 <= d.secs * 1_000_000_000 + d.nanos < (r + 1)
            * 1_000_000,
{
    assert(d.millis() == d.secs * 1000 + d.nanos / 1_000_000);
}

/// A span that was made of seconds or of milliseconds is that long.
pub proof fn spans_are_as_long_as_asked_for(n: u64, secs: Duration, millis: Duration)
    requires
        call_ensures(Duration::from_secs, (n,), secs),
        call_ensures(Duration::from_millis, (n,), millis),
    ensures
        secs.secs == n && secs.nanos == 0,
        millis.secs == n / 1000,
        millis.nanos == n % 1000 * 1_000_000,
        millis.secs * 1_000_000_000 + millis.nanos == n * 1_000_000,
{
}

/// The whole seconds of a span are its seconds, whatever is beyond them.
pub proof fn whole_seconds_leave_out_the_rest(d: Duration, r: u64)
    requires
        call_ensures(Duration::as_secs, (&d,), r),
    ensures
        r == d.secs,
{
}

/// Counting namespaces counts every one: none is on where the count is 0, and
/// turning one on adds one, whichever it is.
pub proof fn every_namespace_counts(n: NamespaceConfig, r: usize)
    requires
        call_ensures(NamespaceConfig::enabled_count, (&n,), r),
    ensures
        r == n.enabled(),
        n.enabled() == 0 <==> !n.pid && !n.ipc && !n.net && !n.mount && !n.uts && !n.user,
        !n.pid ==> (NamespaceConfig { pid: true, ..n }).enabled() == n.enabled() + 1,
        !n.ipc ==> (NamespaceConfig { ipc: true, ..n }).enabled() == n.enabled() + 1,
        !n.net ==> (NamespaceConfig { net: true, ..n }).enabled() == n.enabled() + 1,
        !n.mount ==> (NamespaceConfig { mount: true, ..n }).enabled() == n.enabled() + 1,
        !n.uts ==> (NamespaceConfig { uts: true, ..n }).enabled() == n.enabled() + 1,
        !n.user ==> (NamespaceConfig { user: true, ..n }).enabled() == n.enabled() + 1,
{
}

/// A mode does without root if and only if it is the unprivileged one.
pub proof fn modes_are_told_apart(mode: ResolvedMode, r: bool)
    requires
        call_ensures(ResolvedMode::is_unprivileged, (&mode,), r),
    ensures
        r <==> mode == ResolvedMode::Unprivileged,
{
}

/// A filter lets through the profile that it was made from.
pub proof fn filters_keep_their_profile(profile: SeccompProfile, r: SeccompFilter)
    requires
        call_ensures(SeccompFilter::from_profile, (profile,), r),
    ensures
        r.profile == profile,
{
}

/// The message of an error is the text that it carries, of whatever kind it is.
pub proof fn messages_are_those_carried(e: SandboxError, r: String)
    requires
        call_ensures(SandboxError::message, (&e,), r),
    ensures
        e.text() == r@,
        e matches SandboxError::Io(m) ==> r@ == m@,
        e matches SandboxError::InvalidConfig(m) ==> r@ == m@,
        e matches SandboxError::PermissionDenied(m) ==> r@ == m@,
        e matches SandboxError::FeatureNotAvailable(m) ==> r@ == m@,
        e matches SandboxError::Syscall(m) ==> r@ == m@,
        e matches SandboxError::Host(m) ==> r@ == m@,
        e is AlreadyRunning ==> r@ == "Sandbox is already running"@,
{
}

/// An error of a failed operation says first what was tried, and then why it
/// failed, in full.
pub proof fn failures_say_what_and_why(
    context: &str,
    cause: &str,
    syscall: SandboxError,
    io: SandboxError,
)
    requires
        call_ensures(SandboxError::syscall, (context, cause), syscall),
        call_ensures(SandboxError::io, (context, cause), io),
    ensures
        syscall matches SandboxError::Syscall(m) && m@ == context@ + cause@,
        io matches SandboxError::Io(m) && m@ == context@ + cause@,
{
}

} // verus!
