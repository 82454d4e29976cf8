//! The development stream simulator: a scripted assistant reply cut into
//! bursty chunks with pauses, the way a real provider streams tokens.
use vstd::prelude::*;
use crate::text::{chars_of, extend_chars, string_from_chars};

verus! {

broadcast use vstd::string::group_string_axioms;

/// The reply the simulator streams.
pub const DESKTOP_STREAM_SIMULATOR_SCRIPT: &'static str = "Sure, let me walk through how the streaming text reveal works in the desktop app. When the provider sends tokens, they arrive in bursty chunks rather than a smooth flow, so the renderer keeps a `revealed_chars` cursor that eases toward the full response length. The trailing characters get a per-character alpha ramp called the tail fade, and a soft breathing cursor sits at the very end of the revealed text to signal activity.\n\nHere is a short list of the moving parts:\n- The reveal motion integrates a rate proportional to the backlog.\n- The body text buffer is rebuilt as the reveal advances.\n- A separate overlay buffer paints the streaming tail with its own opacity.\n\nOnce the response finishes, the overlay hands off to the committed transcript message. That handoff should be seamless, with no visible jump or flicker as the text settles into place. This paragraph is intentionally long so the streaming text wraps across many lines and the viewport scrolls while new tokens keep arriving at the bottom of the transcript.";

/// Delay before the simulated session starts, in milliseconds.
pub const DESKTOP_STREAM_SIMULATOR_START_DELAY_MS: u64 = 900;

/// Delay between the last chunk and the end of the reply, in milliseconds.
pub const DESKTOP_STREAM_SIMULATOR_FINISH_DELAY_MS: u64 = 400;

/// Index of the first space in `s`.
pub open spec fn first_space(s: Seq<char>) -> Option<nat>
    decreases s.len(),
{
    if s.len() == 0 {
        None
    } else if s[0] == ' ' {
        Some(0)
    } else {
        match first_space(s.drop_first()) {
            Some(i) => Some(i + 1),
            None => None,
        }
    }
}

/// `str::split_inclusive(' ')`: the words of `s`, each with the space that
/// ends it; text after the last space is the last word.
pub open spec fn words_inclusive(s: Seq<char>) -> Seq<Seq<char>>
    decreases s.len(),
{
    if s.len() == 0 {
        Seq::empty()
    } else {
        match first_space(s) {
            Some(i) => if i < s.len() {
                seq![s.take((i + 1) as int)] + words_inclusive(s.skip((i + 1) as int))
            } else {
                Seq::empty()
            },
            None => seq![s],
        }
    }
}

proof fn lemma_first_space_at(s: Seq<char>, i: int)
    requires
        0 <= i < s.len(),
        s[i] == ' ',
        forall|j: int| 0 <= j < i ==> s[j] != ' ',
    ensures
        first_space(s) == Some(i as nat),
    decreases i,
{
    if i > 0 {
        lemma_first_space_at(s.drop_first(), i - 1);
    }
}

proof fn lemma_first_space_none(s: Seq<char>)
    requires
        forall|j: int| 0 <= j < s.len() ==> s[j] != ' ',
    ensures
        first_space(s) is None,
    decreases s.len(),
{
    if s.len() > 0 {
        lemma_first_space_none(s.drop_first());
    }
}

/// The characters of `parts`, one after another.
pub open spec fn flatten_chars(parts: Seq<Seq<char>>) -> Seq<char>
    decreases parts.len(),
{
    if parts.len() == 0 {
        Seq::empty()
    } else {
        flatten_chars(parts.drop_last()) + parts.last()
    }
}

/// How many words burst `phase` sends at once: 1, 3, 2, 5, 1, 3, ...
pub open spec fn burst_len(phase: nat) -> nat {
    let k = phase % 4;
    if k == 0 {
        1
    } else if k == 1 {
        3
    } else if k == 2 {
        2
    } else {
        5
    }
}

/// The pause after a burst, by the number of bursts sent so far.
pub open spec fn burst_pause_ms(sent: nat) -> nat {
    let k = sent % 5;
    if k == 0 {
        220
    } else if k == 3 {
        120
    } else {
        45
    }
}

/// The chunks of `words` from word `index` on, with the pause after each.
pub open spec fn chunks_from(words: Seq<Seq<char>>, index: nat, phase: nat) -> Seq<(Seq<char>, nat)>
    decreases words.len() - index,
{
    if index >= words.len() {
        Seq::empty()
    } else {
        let end: nat = if index + burst_len(phase) < words.len() {
            index + burst_len(phase)
        } else {
            words.len()
        };
        seq![(flatten_chars(words.subrange(index as int, end as int)), burst_pause_ms(phase + 1))]
            + chunks_from(words, end, phase + 1)
    }
}

/// One chunk the simulator sends, and how long it waits afterwards.
#[derive(Clone, Debug)]
pub struct DesktopStreamChunk {
    pub text: String,
    pub pause_ms: u64,
}

pub open spec fn chunk_views(v: Seq<DesktopStreamChunk>) -> Seq<(Seq<char>, nat)> {
    v.map_values(|c: DesktopStreamChunk| (c.text@, c.pause_ms as nat))
}

pub open spec fn char_vec_views(v: Seq<Vec<char>>) -> Seq<Seq<char>> {
    v.map_values(|w: Vec<char>| w@)
}

fn words_inclusive_exec(s: &[char]) -> (r: Vec<Vec<char>>)
    ensures
        char_vec_views(r@) == words_inclusive(s@),
{
    let mut out: Vec<Vec<char>> = Vec::new();
    let mut start: usize = 0;
    let mut cur: Vec<char> = Vec::new();
    let mut i: usize = 0;
    assert(s@.skip(0) =~= s@);
    assert(char_vec_views(out@) + words_inclusive(s@) =~= words_inclusive(s@));
    while i < s.len()
        invariant
            start <= i <= s.len(),
            cur@ == s@.subrange(start as int, i as int),
            forall|j: int| start <= j < i ==> s@[j] != ' ',
            words_inclusive(s@) == char_vec_views(out@) + words_inclusive(s@.skip(start as int)),
        decreases s.len() - i,
    {
        cur.push(s[i]);
        if s[i] == ' ' {
            let ghost rest = s@.skip(start as int);
            proof {
                lemma_first_space_at(rest, i - start);
                assert(rest.take(i - start + 1) =~= cur@);
                assert(rest.skip(i - start + 1) =~= s@.skip(i + 1));
            }
            let ghost before = out@;
            let mut done: Vec<char> = Vec::new();
            std::mem::swap(&mut done, &mut cur);
            let ghost dv = done@;
            out.push(done);
            proof {
                assert(char_vec_views(out@) =~= char_vec_views(before).push(dv));
                assert(words_inclusive(rest) =~= seq![dv] + words_inclusive(s@.skip(i + 1)));
                assert(char_vec_views(out@) + words_inclusive(s@.skip(i + 1)) =~= char_vec_views(
                    before,
                ) + words_inclusive(rest));
            }
            start = i + 1;
        }
        i = i + 1;
    }
    if start < s.len() {
        let ghost rest = s@.skip(start as int);
        proof {
            lemma_first_space_none(rest);
            assert(rest =~= cur@);
        }
        let ghost before = out@;
        let ghost cv = cur@;
        out.push(cur);
        proof {
            assert(char_vec_views(out@) =~= char_vec_views(before).push(cv));
            assert(words_inclusive(rest) =~= seq![cv]);
            assert(char_vec_views(out@) =~= char_vec_views(before) + words_inclusive(rest));
        }
    } else {
        proof {
            assert(s@.skip(start as int) =~= Seq::<char>::empty());
            assert(char_vec_views(out@) + Seq::empty() =~= char_vec_views(out@));
        }
    }
    out
}


fn burst_len_exec(phase: usize) -> (r: usize)
    ensures
        r == burst_len(phase as nat),
{
    let k = phase % 4;
    if k == 0 {
        1
    } else if k == 1 {
        3
    } else if k == 2 {
        2
    } else {
        5
    }
}

fn burst_pause_exec(sent: usize) -> (r: u64)
    ensures
        r == burst_pause_ms(sent as nat),
{
    let k = sent % 5;
    if k == 0 {
        220
    } else if k == 3 {
        120
    } else {
        45
    }
}

/// The chunks the simulator streams `script` in: bursts of 1, 3, 2 and 5
/// words in turn, each followed by a pause of 220 ms after every fifth
/// burst, 120 ms after the third of each five, 45 ms otherwise.
pub fn desktop_stream_simulator_chunks(script: &str) -> (r: Vec<DesktopStreamChunk>)
    ensures
        chunk_views(r@) == chunks_from(words_inclusive(script@), 0, 0),
{
    let cs = chars_of(script);
    let words = words_inclusive_exec(cs.as_slice());
    let ghost ws = char_vec_views(words@);
    let mut out: Vec<DesktopStreamChunk> = Vec::new();
    let mut index: usize = 0;
    let mut phase: usize = 0;
    assert(chunk_views(out@) + chunks_from(ws, 0, 0) =~= chunks_from(ws, 0, 0));
    while index < words.len()
        invariant
            ws == char_vec_views(words@),
            ws == words_inclusive(script@),
            index <= words.len(),
            phase <= index,
            chunks_from(ws, 0, 0) == chunk_views(out@) + chunks_from(ws, index as nat, phase as nat),
        decreases words.len() - index,
    {
        let burst = burst_len_exec(phase);
        let end: usize = if burst < words.len() - index {
            index + burst
        } else {
            words.len()
        };
        let mut text: Vec<char> = Vec::new();
        let mut k: usize = index;
        assert(ws.subrange(index as int, index as int) =~= Seq::<Seq<char>>::empty());
        while k < end
            invariant
                ws == char_vec_views(words@),
                index <= k <= end <= words.len(),
                text@ == flatten_chars(ws.subrange(index as int, k as int)),
            decreases end - k,
        {
            assert(ws.subrange(index as int, k + 1).drop_last() =~= ws.subrange(index as int, k as int));
            assert(ws[k as int] == words@[k as int]@);
            extend_chars(&mut text, words[k].as_slice());
            k = k + 1;
        }
        let pause = burst_pause_exec(phase + 1);
        let ghost before = out@;
        out.push(DesktopStreamChunk { text: string_from_chars(text.as_slice()), pause_ms: pause });
        proof {
            assert(chunk_views(out@) =~= chunk_views(before).push(
                (flatten_chars(ws.subrange(index as int, end as int)), burst_pause_ms((phase + 1) as nat)),
            ));
            assert(chunk_views(out@) + chunks_from(ws, end as nat, (phase + 1) as nat) =~= chunk_views(
                before,
            ) + chunks_from(ws, index as nat, phase as nat));
        }
        index = end;
        phase = phase + 1;
    }
    assert(chunks_from(ws, index as nat, phase as nat) =~= Seq::empty());
    assert(chunk_views(out@) + Seq::empty() =~= chunk_views(out@));
    out
}

proof fn lemma_flatten_append(a: Seq<Seq<char>>, b: Seq<Seq<char>>)
    ensures
        flatten_chars(a + b) == flatten_chars(a) + flatten_chars(b),
    decreases b.len(),
{
    if b.len() == 0 {
        assert(a + b =~= a);
        assert(flatten_chars(a) + Seq::empty() =~= flatten_chars(a));
    } else {
        lemma_flatten_append(a, b.drop_last());
        assert((a + b).drop_last() =~= a + b.drop_last());
        assert(flatten_chars(a) + flatten_chars(b.drop_last()) + b.last() =~= flatten_chars(a) + (
        flatten_chars(b.drop_last()) + b.last()));
    }
}

proof fn lemma_flatten_single(w: Seq<char>)
    ensures
        flatten_chars(seq![w]) == w,
{
    assert(seq![w].drop_last() =~= Seq::<Seq<char>>::empty());
    assert(flatten_chars(Seq::<Seq<char>>::empty()) =~= Seq::<char>::empty());
    assert(seq![w].last() == w);
    assert(Seq::<char>::empty() + w =~= w);
}

proof fn lemma_words_inclusive_flatten(s: Seq<char>)
    ensures
        flatten_chars(words_inclusive(s)) == s,
    decreases s.len(),
{
    if s.len() > 0 {
        match first_space(s) {
            Some(i) => {
                lemma_first_space_bound(s);
                let w = s.take((i + 1) as int);
                let rest = s.skip((i + 1) as int);
                lemma_words_inclusive_flatten(rest);
                lemma_flatten_append(seq![w], words_inclusive(rest));
                lemma_flatten_single(w);
                assert(w + rest =~= s);
            },
            None => {
                lemma_flatten_single(s);
            },
        }
    }
}

proof fn lemma_first_space_bound(s: Seq<char>)
    ensures
        first_space(s) matches Some(i) ==> i < s.len(),
    decreases s.len(),
{
    if s.len() > 0 {
        lemma_first_space_bound(s.drop_first());
    }
}

/// The text of each chunk, in order.
pub open spec fn chunk_texts(chunks: Seq<(Seq<char>, nat)>) -> Seq<Seq<char>> {
    chunks.map_values(|c: (Seq<char>, nat)| c.0)
}

proof fn lemma_chunks_flatten(words: Seq<Seq<char>>, index: nat, phase: nat)
    requires
        index <= words.len(),
    ensures
        flatten_chars(chunk_texts(chunks_from(words, index, phase))) == flatten_chars(
            words.skip(index as int),
        ),
    decreases words.len() - index,
{
    if index < words.len() {
        let end: nat = if index + burst_len(phase) < words.len() {
            index + burst_len(phase)
        } else {
            words.len()
        };
        lemma_chunks_flatten(words, end, phase + 1);
        let head = flatten_chars(words.subrange(index as int, end as int));
        let tail = chunks_from(words, end, phase + 1);
        assert(chunk_texts(chunks_from(words, index, phase)) =~= seq![head] + chunk_texts(tail));
        lemma_flatten_append(seq![head], chunk_texts(tail));
        lemma_flatten_single(head);
        assert(words.skip(index as int) =~= words.subrange(index as int, end as int) + words.skip(
            end as int,
        ));
        lemma_flatten_append(words.subrange(index as int, end as int), words.skip(end as int));
    } else {
        assert(words.skip(index as int) =~= Seq::<Seq<char>>::empty());
        assert(chunk_texts(chunks_from(words, index, phase)) =~= Seq::<Seq<char>>::empty());
    }
}

/// Nothing of the script is lost or repeated: the chunks, one after another,
/// are the script.
pub proof fn lemma_simulator_chunks_cover_script(script: Seq<char>)
    ensures
        flatten_chars(chunk_texts(chunks_from(words_inclusive(script), 0, 0))) == script,
{
    lemma_chunks_flatten(words_inclusive(script), 0, 0);
    assert(words_inclusive(script).skip(0) =~= words_inclusive(script));
    lemma_words_inclusive_flatten(script);
}

} // verus!
