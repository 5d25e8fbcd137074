//! Channel directives: a token such as `^12` names a channel and may change
//! the mode in which that channel and the following ones are set.

use vstd::prelude::*;
use vstd::string::StringSliceAdditionalSpecFns;

verus! {

/// The level a channel is turned on with.
pub const DEFAULT_ENABLE_VALUE: u8 = 200;

/// How the next referenced channel gets its new value.
#[derive(Clone, Copy, Debug, PartialEq, Eq, Structural)]
pub enum Mode {
    /// Set the channel to the given level.
    SetTo(u8),
    /// Flip the channel between off and the default level.
    Toggle,
}

/// The value a channel takes under `m` when its level is `current`.
pub open spec fn spec_new_value(m: Mode, current: u8) -> u8 {
    match m {
        Mode::SetTo(v) => v,
        Mode::Toggle => if current == 0 { DEFAULT_ENABLE_VALUE } else { 0 },
    }
}

/// Decides the value a channel is set to, from the current mode and its
/// current level.
pub fn new_value(m: &Mode, current_value: u8) -> (r: u8)
    ensures
        r == spec_new_value(*m, current_value),
{
    match m {
        Mode::SetTo(value) => *value,
        Mode::Toggle => if current_value == 0 { DEFAULT_ENABLE_VALUE } else { 0 },
    }
}

/// The mode change that a leading character of a token stands for.
pub open spec fn sigil_mode(c: char) -> Option<Mode> {
    if c == '-' {
        Some(Mode::SetTo(0))
    } else if c == '+' {
        Some(Mode::SetTo(DEFAULT_ENABLE_VALUE))
    } else if c == '^' {
        Some(Mode::Toggle)
    } else {
        None
    }
}

pub open spec fn is_digit(c: char) -> bool {
    '0' <= c && c <= '9'
}

/// A non-empty run of decimal digits.
pub open spec fn is_digit_run(s: Seq<char>) -> bool {
    s.len() > 0 && forall|i: int| 0 <= i < s.len() ==> is_digit(#[trigger] s[i])
}

/// The number that a run of decimal digits denotes, most significant first.
pub open spec fn digits_value(s: Seq<char>) -> nat
    decreases s.len(),
{
    if s.len() == 0 {
        0
    } else {
        digits_value(s.drop_last()) * 10 + (s.last() as nat - '0' as nat) as nat
    }
}

/// The mode change a token carries: that of its sigil, if it starts with one.
pub open spec fn token_mode(s: Seq<char>) -> Option<Mode> {
    if s.len() > 0 {
        sigil_mode(s[0])
    } else {
        None
    }
}

/// The part of a token after its sigil.
pub open spec fn token_digits(s: Seq<char>) -> Seq<char> {
    if token_mode(s) is Some {
        s.skip(1)
    } else {
        s
    }
}

/// What a token means: an optional sigil followed by the decimal number of a
/// channel below 512; `None` for anything else.
pub open spec fn spec_parse_arg(s: Seq<char>) -> Option<(Option<Mode>, u16)> {
    let d = token_digits(s);
    if is_digit_run(d) && digits_value(d) < 512 {
        Some((token_mode(s), digits_value(d) as u16))
    } else {
        None
    }
}

proof fn lemma_digits_value_extend(s: Seq<char>, k: int)
    requires
        0 <= k < s.len(),
    ensures
        digits_value(s.take(k + 1)) == digits_value(s.take(k)) * 10 + (s[k] as nat
            - '0' as nat) as nat,
{
    assert(s.take(k + 1).drop_last() =~= s.take(k));
}

/// The one error for every token that is not a channel directive.
fn invalid_channel() -> String {
    "Args should be channel numbers".to_string()
}

/// Parses one channel token into its mode change, if any, and its channel
/// number.
pub fn parse_arg(arg: &String) -> (r: Result<(Option<Mode>, u16), String>)
    ensures
        r is Ok <==> spec_parse_arg(arg@) is Some,
        r is Ok ==> r->Ok_0 == spec_parse_arg(arg@)->Some_0,
{
    let s = arg.as_str();
    if !s.is_ascii() {
        proof {
            let i = choose|i: int| 0 <= i < s@.len() && !('\0' <= #[trigger] s@[i] <= '\u{7f}');
            if token_mode(s@) is Some {
                assert(token_digits(s@)[i - 1] == s@[i]);
            } else {
                assert(token_digits(s@)[i] == s@[i]);
            }
        }
        return Err(invalid_channel());
    }
    let bytes = s.as_bytes();
    proof {
        vstd::string::is_ascii_spec_bytes(s);
    }
    let n = bytes.len();
    let ghost chars = arg@;
    assert(n == chars.len());
    let mut mode: Option<Mode> = None;
    let mut start: usize = 0;
    if n > 0 {
        let c = bytes[0];
        if c == ('-' as u8) {
            mode = Some(Mode::SetTo(0));
            start = 1;
        } else if c == ('+' as u8) {
            mode = Some(Mode::SetTo(DEFAULT_ENABLE_VALUE));
            start = 1;
        } else if c == ('^' as u8) {
            mode = Some(Mode::Toggle);
            start = 1;
        }
    }
    let ghost digits = token_digits(chars);
    assert(mode == token_mode(chars));
    assert(digits =~= chars.skip(start as int));
    if start == n {
        return Err(invalid_channel());
    }
    // Every number from 512 up is refused alike, so the value saturates at
    // 512 and long runs of digits cannot overflow it.
    let mut value: u16 = 0;
    let mut i: usize = start;
    while i < n
        invariant
            start <= i <= n,
            n == chars.len(),
            bytes@ == s.spec_bytes(),
            s.spec_bytes() =~= Seq::new(chars.len(), |j: int| chars[j] as u8),
            vstd::string::is_ascii(s),
            s@ == chars,
            chars == arg@,
            digits == token_digits(chars),
            digits =~= chars.skip(start as int),
            value <= 512,
            forall|j: int| 0 <= j < i - start ==> is_digit(#[trigger] digits[j]),
            value == if digits_value(digits.take(i - start)) < 512 {
                digits_value(digits.take(i - start))
            } else {
                512
            },
        decreases n - i,
    {
        let b = bytes[i];
        let ghost c = chars[i as int];
        assert(c == digits[i - start]);
        assert(b == c as u8);
        proof {
            vstd::utf8::is_ascii_chars_nat_bound(chars);
        }
        assert((c as nat) < 128);
        assert(b as nat == c as nat);
        if b < ('0' as u8) || b > ('9' as u8) {
            assert(!is_digit(digits[i - start]));
            return Err(invalid_channel());
        }
        assert(is_digit(c));
        proof {
            lemma_digits_value_extend(digits, i - start);
        }
        let d = (b - ('0' as u8)) as u16;
        assert(d as nat == (c as nat - '0' as nat) as nat);
        if value < 512 {
            let t = value * 10 + d;
            value = if t < 512 { t } else { 512 };
        }
        i = i + 1;
    }
    assert(digits.take(n - start) =~= digits);
    if value < 512 {
        Ok((mode, value))
    } else {
        Err(invalid_channel())
    }
}

/// An optional sigil: nothing, or one of `-`, `+`, `^`.
pub open spec fn is_sigil_prefix(p: Seq<char>) -> bool {
    p.len() == 0 || (p.len() == 1 && sigil_mode(p[0]) is Some)
}

proof fn lemma_token_split(p: Seq<char>, d: Seq<char>)
    requires
        is_sigil_prefix(p),
        is_digit_run(d),
    ensures
        token_mode(p + d) == token_mode(p),
        token_digits(p + d) == d,
{
    if p.len() == 0 {
        assert(p + d =~= d);
        assert(is_digit(d[0]));
    } else {
        assert((p + d)[0] == p[0]);
        assert((p + d).skip(1) =~= d);
    }
}

/// Every token of the grammar parses: a sigil (or none) followed by the
/// decimal digits of a channel below 512 yields the sigil's mode change and
/// that channel. The result depends on the token's text alone, so the same
/// token always gives the same pair.
pub proof fn lemma_valid_token_parses(p: Seq<char>, d: Seq<char>)
    requires
        is_sigil_prefix(p),
        is_digit_run(d),
        digits_value(d) < 512,
    ensures
        spec_parse_arg(p + d) == Some((token_mode(p), digits_value(d) as u16)),
{
    lemma_token_split(p, d);
}

/// A channel number of 512 or more is refused, with every sigil and without
/// one.
pub proof fn lemma_large_channel_rejected(p: Seq<char>, d: Seq<char>)
    requires
        is_sigil_prefix(p),
        is_digit_run(d),
        digits_value(d) >= 512,
    ensures
        spec_parse_arg(p + d) is None,
{
    lemma_token_split(p, d);
}

/// A parsed token: its mode change, if any, and its channel number.
pub type Directive = (Option<Mode>, u16);

/// Every directive names a channel of the universe.
pub open spec fn channels_in_range(ds: Seq<Directive>) -> bool {
    forall|i: int| 0 <= i < ds.len() ==> (#[trigger] ds[i]).1 < 512
}

/// Whether some directive changes the mode, which makes the request start
/// from the last universe sent.
pub open spec fn spec_is_stateful(ds: Seq<Directive>) -> bool {
    exists|i: int| 0 <= i < ds.len() && (#[trigger] ds[i]).0 is Some
}

/// Applies directives left to right. Each one adopts its own mode change if
/// it has one, sets its channel from the mode and the channel's level, and
/// leaves `SetTo` of the value it wrote as the mode for what follows.
pub open spec fn fold_directives(u: Seq<u8>, mode: Mode, ds: Seq<Directive>) -> Seq<u8>
    decreases ds.len(),
{
    if ds.len() == 0 {
        u
    } else {
        let m = match ds[0].0 {
            Some(changed) => changed,
            None => mode,
        };
        let v = spec_new_value(m, u[ds[0].1 as int]);
        fold_directives(u.update(ds[0].1 as int, v), Mode::SetTo(v), ds.skip(1))
    }
}

/// The mode in force before the first directive.
pub open spec fn initial_mode() -> Mode {
    Mode::SetTo(DEFAULT_ENABLE_VALUE)
}

/// Parses every token; fails with the first token that is not a channel
/// directive.
pub fn parse_args(args: &Vec<String>) -> (r: Result<Vec<Directive>, String>)
    ensures
        r is Ok <==> forall|i: int| 0 <= i < args@.len() ==> (#[trigger] spec_parse_arg(args@[i]@)) is Some,
        r is Ok ==> r->Ok_0@.len() == args@.len() && forall|i: int|
            0 <= i < args@.len() ==> r->Ok_0@[i] == (#[trigger] spec_parse_arg(args@[i]@))->Some_0,
        r is Ok ==> channels_in_range(r->Ok_0@),
{
    let mut out: Vec<Directive> = Vec::new();
    let mut i: usize = 0;
    while i < args.len()
        invariant
            i <= args@.len(),
            out@.len() == i,
            forall|j: int| 0 <= j < i ==> (#[trigger] spec_parse_arg(args@[j]@)) is Some,
            forall|j: int| 0 <= j < i ==> out@[j] == (#[trigger] spec_parse_arg(args@[j]@))->Some_0,
            channels_in_range(out@),
        decreases args@.len() - i,
    {
        match parse_arg(&args[i]) {
            Ok(d) => {
                out.push(d);
            },
            Err(e) => {
                return Err(e);
            },
        }
        i = i + 1;
    }
    Ok(out)
}

/// Tells whether any directive changes the mode.
pub fn is_stateful_request(directives: &Vec<Directive>) -> (r: bool)
    ensures
        r == spec_is_stateful(directives@),
{
    let mut i: usize = 0;
    while i < directives.len()
        invariant
            i <= directives@.len(),
            forall|j: int| 0 <= j < i ==> (#[trigger] directives@[j]).0 is None,
        decreases directives@.len() - i,
    {
        if directives[i].0.is_some() {
            return true;
        }
        i = i + 1;
    }
    false
}

/// Folds the directives, in order, into the universe.
pub fn apply_directives(universe: &mut [u8; 512], directives: &Vec<Directive>)
    requires
        channels_in_range(directives@),
    ensures
        final(universe)@ == fold_directives(old(universe)@, initial_mode(), directives@),
{
    let mut mode = Mode::SetTo(DEFAULT_ENABLE_VALUE);
    let mut i: usize = 0;
    assert(directives@.skip(0) =~= directives@);
    while i < directives.len()
        invariant
            i <= directives@.len(),
            channels_in_range(directives@),
            universe@.len() == 512,
            fold_directives(universe@, mode, directives@.skip(i as int)) == fold_directives(
                old(universe)@,
                initial_mode(),
                directives@,
            ),
        decreases directives@.len() - i,
    {
        let (change, channel) = directives[i];
        if let Some(m) = change {
            mode = m;
        }
        let c = channel as usize;
        let v = new_value(&mode, universe[c]);
        universe[c] = v;
        mode = Mode::SetTo(v);
        assert(directives@.skip(i as int).skip(1) =~= directives@.skip(i + 1));
        i = i + 1;
    }
    assert(directives@.skip(i as int) =~= Seq::<Directive>::empty());
}

/// Whether some directive names channel `c`.
pub open spec fn names_channel(ds: Seq<Directive>, c: int) -> bool {
    exists|i: int| 0 <= i < ds.len() && (#[trigger] ds[i]).1 == c
}

/// Folding keeps the universe's length, and a channel that no directive
/// names keeps its level, whatever the mode.
pub proof fn lemma_fold_keeps_unnamed(u: Seq<u8>, mode: Mode, ds: Seq<Directive>, c: int)
    requires
        u.len() == 512,
        channels_in_range(ds),
        0 <= c < 512,
    ensures
        fold_directives(u, mode, ds).len() == 512,
        !names_channel(ds, c) ==> fold_directives(u, mode, ds)[c] == u[c],
    decreases ds.len(),
{
    if ds.len() > 0 {
        let m = match ds[0].0 {
            Some(changed) => changed,
            None => mode,
        };
        let v = spec_new_value(m, u[ds[0].1 as int]);
        let rest = ds.skip(1);
        assert(ds[0].1 < 512);
        assert forall|i: int| 0 <= i < rest.len() implies (#[trigger] rest[i]).1 < 512 by {
            assert(rest[i] == ds[i + 1]);
        }
        lemma_fold_keeps_unnamed(u.update(ds[0].1 as int, v), Mode::SetTo(v), rest, c);
        if !names_channel(ds, c) {
            assert(ds[0].1 != c);
            assert forall|i: int| 0 <= i < rest.len() implies (#[trigger] rest[i]).1 != c by {
                assert(rest[i] == ds[i + 1]);
            }
        }
    }
}

/// Without mode changes every named channel is set to the default level and
/// every other channel keeps its level.
pub proof fn lemma_fold_without_sigils(u: Seq<u8>, ds: Seq<Directive>, c: int)
    requires
        u.len() == 512,
        channels_in_range(ds),
        !spec_is_stateful(ds),
        0 <= c < 512,
    ensures
        fold_directives(u, initial_mode(), ds)[c] == if names_channel(ds, c) {
            DEFAULT_ENABLE_VALUE
        } else {
            u[c]
        },
    decreases ds.len(),
{
    lemma_fold_keeps_unnamed(u, initial_mode(), ds, c);
    if ds.len() > 0 {
        assert(ds[0].0 is None);
        let v = DEFAULT_ENABLE_VALUE;
        let u2 = u.update(ds[0].1 as int, v);
        let rest = ds.skip(1);
        assert(ds[0].1 < 512);
        assert forall|i: int| 0 <= i < rest.len() implies (#[trigger] rest[i]).1 < 512 by {
            assert(rest[i] == ds[i + 1]);
        }
        assert forall|i: int| 0 <= i < rest.len() implies (#[trigger] rest[i]).0 is None by {
            assert(rest[i] == ds[i + 1]);
            assert(ds[i + 1].0 is None);
        }
        lemma_fold_without_sigils(u2, rest, c);
        if names_channel(rest, c) {
            let i = choose|i: int| 0 <= i < rest.len() && (#[trigger] rest[i]).1 == c;
            assert(ds[i + 1].1 == c);
        } else if names_channel(ds, c) {
            let i = choose|i: int| 0 <= i < ds.len() && (#[trigger] ds[i]).1 == c;
            if i > 0 {
                assert(rest[i - 1] == ds[i]);
            }
        } else {
            assert(ds[0].1 != c);
        }
    }
}

} // verus!
