use vstd::prelude::*;

verus! {

use vstd::arithmetic::power2::{
    lemma2_to64,
    lemma_pow2_pos,
    lemma_pow2_strictly_increases,
    lemma_pow2_unfold,
    pow2,
};
use vstd::std_specs::iter::IteratorSpec;

broadcast use vstd::string::axiom_spec_iter, vstd::string::next_postcondition;

/// Collects the characters of `s`, in order.
fn chars_of(s: &str) -> (r: Vec<char>)
    ensures
        r@ == s@,
{
    let mut it = s.chars();
    let mut out: Vec<char> = Vec::new();
    loop
        invariant
            it.obeys_prophetic_iter_laws(),
            out@ + it.remaining() == s@,
            it.decrease() is Some,
        ensures
            out@ == s@,
        decreases it.decrease()->0,
    {
        let ghost old_out = out@;
        let ghost old_rem = it.remaining();
        match it.next() {
            Some(c) => {
                out.push(c);
                assert(out@ + it.remaining() =~= old_out + old_rem);
            },
            None => {
                assert(out@ + it.remaining() =~= out@);
                break;
            },
        }
    }
    out
}

/// What a note plays: nothing, or a pitch some semitones away from the starting note.
#[derive(Clone, Copy, Debug, PartialEq, Eq, Structural)]
pub enum Pitch {
    Silence,
    Offset(i32),
}

/// One decoded cluster: a length digit `l`, played for `2^(1 - l)` measures, and its pitch.
#[derive(Clone, Copy, Debug, PartialEq, Eq, Structural)]
pub struct Note {
    pub length: u32,
    pub pitch: Pitch,
}

/// Why a note string is rejected.
#[derive(Clone, Copy, Debug, PartialEq, Eq, Structural)]
pub enum DecodeError {
    /// The first character of a cluster is not a hexadecimal digit.
    InvalidLength,
    /// The last character of a cluster is neither `_` nor a hexadecimal digit.
    InvalidOffset,
    /// The string ends inside a cluster.
    UnexpectedEnd,
}

/// The value of a hexadecimal digit, in either case.
pub open spec fn hex_value(c: char) -> Option<u32> {
    if '0' <= c && c <= '9' {
        Some((c as u32 - '0' as u32) as u32)
    } else if 'a' <= c && c <= 'f' {
        Some((c as u32 - 'a' as u32 + 10) as u32)
    } else if 'A' <= c && c <= 'F' {
        Some((c as u32 - 'A' as u32 + 10) as u32)
    } else {
        None
    }
}

/// The note written with length character `l`, sign character `sign` and offset character `n`.
pub open spec fn note_spec(l: char, sign: char, n: char) -> Result<Note, DecodeError> {
    match hex_value(l) {
        None => Err(DecodeError::InvalidLength),
        Some(length) => if n == '_' {
            Ok(Note { length, pitch: Pitch::Silence })
        } else {
            match hex_value(n) {
                None => Err(DecodeError::InvalidOffset),
                Some(v) => Ok(
                    Note {
                        length,
                        pitch: Pitch::Offset(if sign == '-' { -v } else { v as int } as i32),
                    },
                ),
            }
        },
    }
}

/// The width of the cluster that starts at `i`: three characters when a `-` sign follows the
/// length digit, else two.
pub open spec fn cluster_width(s: Seq<char>, i: int) -> int {
    if i + 1 < s.len() && s[i + 1] == '-' {
        3
    } else {
        2
    }
}

/// The note of the cluster that starts at `i`.
pub open spec fn cluster_note(s: Seq<char>, i: int) -> Result<Note, DecodeError> {
    if i + cluster_width(s, i) > s.len() {
        Err(DecodeError::UnexpectedEnd)
    } else if cluster_width(s, i) == 3 {
        note_spec(s[i], '-', s[i + 2])
    } else {
        note_spec(s[i], ' ', s[i + 1])
    }
}

/// `r` with `p` in front of its notes.
pub open spec fn prepend(p: Seq<Note>, r: Result<Seq<Note>, DecodeError>) -> Result<
    Seq<Note>,
    DecodeError,
> {
    match r {
        Ok(rest) => Ok(p + rest),
        Err(e) => Err(e),
    }
}

/// The notes of the clusters from position `i` on, or the first error among them.
pub open spec fn decode_from(s: Seq<char>, i: int) -> Result<Seq<Note>, DecodeError>
    decreases s.len() - i,
{
    if i < 0 || i >= s.len() {
        Ok(Seq::empty())
    } else {
        match cluster_note(s, i) {
            Err(e) => Err(e),
            Ok(n) => prepend(seq![n], decode_from(s, i + cluster_width(s, i))),
        }
    }
}

/// The notes of a whole string.
pub open spec fn decode(s: Seq<char>) -> Result<Seq<Note>, DecodeError> {
    decode_from(s, 0)
}

/// The value of the hexadecimal digit `c`, if it is one.
pub fn hex_digit(c: char) -> (r: Option<u32>)
    ensures
        r == hex_value(c),
{
    if '0' <= c && c <= '9' {
        Some(c as u32 - '0' as u32)
    } else if 'a' <= c && c <= 'f' {
        Some(c as u32 - 'a' as u32 + 10)
    } else if 'A' <= c && c <= 'F' {
        Some(c as u32 - 'A' as u32 + 10)
    } else {
        None
    }
}

/// Decodes one cluster `[l, sign, n]`: `l` is the length digit, `sign` is `-` for a negative
/// offset, and `n` is the offset digit or `_` for silence.
pub fn parse_note(chars: [char; 3]) -> (r: Result<Note, DecodeError>)
    ensures
        r == note_spec(chars[0], chars[1], chars[2]),
{
    let l = chars[0];
    let sign = chars[1];
    let n = chars[2];
    let length = match hex_digit(l) {
        None => {
            return Err(DecodeError::InvalidLength);
        },
        Some(v) => v,
    };
    if n == '_' {
        Ok(Note { length, pitch: Pitch::Silence })
    } else {
        match hex_digit(n) {
            None => Err(DecodeError::InvalidOffset),
            Some(v) => {
                let off: i32 = if sign == '-' { -(v as i32) } else { v as i32 };
                Ok(Note { length, pitch: Pitch::Offset(off) })
            },
        }
    }
}

/// Decodes a string of clusters written one after another, with no separator. Each cluster is
/// a length digit, an optional `-`, and an offset digit or `_`.
pub fn read(string: &str) -> (r: Result<Vec<Note>, DecodeError>)
    ensures
        match r {
            Ok(notes) => decode(string@) == Ok::<Seq<Note>, DecodeError>(notes@),
            Err(e) => decode(string@) == Err::<Seq<Note>, DecodeError>(e),
        },
{
    let s = chars_of(string);
    let mut notes: Vec<Note> = Vec::new();
    let mut i: usize = 0;
    while i < s.len()
        invariant
            s@ == string@,
            i <= s.len(),
            decode(s@) == prepend(notes@, decode_from(s@, i as int)),
        decreases s.len() - i,
    {
        let w: usize = if i + 1 < s.len() && s[i + 1] == '-' { 3 } else { 2 };
        if w > s.len() - i {
            return Err(DecodeError::UnexpectedEnd);
        }
        let sign = if w == 3 { '-' } else { ' ' };
        let note = parse_note([s[i], sign, s[i + w - 1]]);
        match note {
            Err(e) => {
                return Err(e);
            },
            Ok(n) => {
                proof {
                    let rest = decode_from(s@, i + w);
                    assert(prepend(notes@, prepend(seq![n], rest)) == prepend(notes@.push(n), rest))
                        by {
                        if let Ok(x) = rest {
                            assert(notes@ + (seq![n] + x) =~= notes@.push(n) + x);
                        }
                    }
                }
                notes.push(n);
                i = i + w;
            },
        }
    }
    proof {
        assert(notes@ + Seq::<Note>::empty() =~= notes@);
    }
    Ok(notes)
}


/// `n / d` rounded to the nearest integer, halves up.
pub open spec fn round_div(n: nat, d: nat) -> nat {
    (2 * n + d) / (2 * d)
}

/// The number of samples of a note with length digit `length`. In 4/4 time one measure lasts
/// `4 * 60 / tempo` seconds, so the note lasts `2^(1 - length) * 240 / tempo`, that is
/// `480 / (tempo * 2^length)` seconds, and covers that many seconds of samples, rounded.
pub open spec fn note_samples_spec(tempo: nat, length: nat, sample_rate: nat) -> nat {
    round_div(480 * sample_rate, tempo * pow2(length))
}

/// The number of samples, at `sample_rate`, of a note with length digit `length` at `tempo`
/// beats per minute.
pub fn note_samples(tempo: u32, length: u32, sample_rate: u32) -> (r: u64)
    requires
        tempo > 0,
        length < 16,
    ensures
        r == note_samples_spec(tempo as nat, length as nat, sample_rate as nat),
{
    let mut d: u64 = tempo as u64;
    let mut k: u32 = 0;
    proof {
        lemma2_to64();
    }
    while k < length
        invariant
            k <= length < 16,
            tempo > 0,
            d == tempo * pow2(k as nat),
            d <= 0xffff_ffff * 32768,
        decreases length - k,
    {
        proof {
            lemma_pow2_unfold((k + 1) as nat);
            if k + 1 < 15 {
                lemma_pow2_strictly_increases((k + 1) as nat, 15);
            }
            lemma2_to64();
            assert(d * 2 == tempo * pow2((k + 1) as nat)) by (nonlinear_arith)
                requires
                    d == tempo * pow2(k as nat),
                    pow2((k + 1) as nat) == 2 * pow2(k as nat),
            ;
            assert(tempo * pow2((k + 1) as nat) <= 0xffff_ffff * 32768) by (nonlinear_arith)
                requires
                    tempo <= 0xffff_ffff,
                    pow2((k + 1) as nat) <= 32768,
            ;
        }
        d = d * 2;
        k = k + 1;
    }
    let n: u64 = 480 * sample_rate as u64;
    assert(d > 0) by (nonlinear_arith)
        requires
            d == tempo * pow2(k as nat),
            tempo > 0,
            pow2(k as nat) > 0,
    {
        lemma_pow2_pos(k as nat);
    }
    (2 * n + d) / (2 * d)
}

/// The clusters from position `i` on cover the rest of the string exactly, with no character
/// left over.
pub open spec fn clusters_fit(s: Seq<char>, i: int) -> bool
    decreases s.len() - i,
{
    if i < 0 || i >= s.len() {
        i == s.len()
    } else if i + cluster_width(s, i) > s.len() {
        false
    } else {
        clusters_fit(s, i + cluster_width(s, i))
    }
}

/// The number of clusters that start at or after position `i`.
pub open spec fn cluster_count(s: Seq<char>, i: int) -> nat
    decreases s.len() - i,
{
    if i < 0 || i >= s.len() {
        0
    } else if i + cluster_width(s, i) > s.len() {
        1
    } else {
        1 + cluster_count(s, i + cluster_width(s, i))
    }
}

proof fn lemma_notes_from(s: Seq<char>, i: int)
    requires
        0 <= i <= s.len(),
        decode_from(s, i) is Ok,
    ensures
        clusters_fit(s, i),
        decode_from(s, i)->Ok_0.len() == cluster_count(s, i),
    decreases s.len() - i,
{
    if i < s.len() {
        lemma_notes_from(s, i + cluster_width(s, i));
    }
}

/// A string that decodes is consumed exactly by its clusters, and gives one note per cluster.
pub proof fn lemma_one_note_per_cluster(s: Seq<char>)
    requires
        decode(s) is Ok,
    ensures
        clusters_fit(s, 0),
        decode(s)->Ok_0.len() == cluster_count(s, 0),
{
    lemma_notes_from(s, 0);
}

} // verus!
