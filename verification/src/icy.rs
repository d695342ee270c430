//! Removal of Shoutcast/Icecast (ICY) metadata blocks from an audio byte
//! stream.
//!
//! An ICY server sends `metaint` audio bytes, then one length byte `L`, then
//! `L * 16` bytes of metadata text, and repeats.  The stripper passes audio
//! bytes through and collects the metadata, from which the current stream
//! title (`StreamTitle='...';`) is read.

use vstd::prelude::*;
use vstd::utf8::*;

use crate::text::{chars_of, chars_slice, find, find_chars, find_from, lemma_find_from, occurs_at, string_from_chars, trim, trim_chars};

verus! {

/// Position of the stripper inside the ICY framing.
#[verifier::ext_equal]
pub struct IcyPhase {
    /// Audio bytes left before the next length byte.
    pub audio_remaining: nat,
    /// Metadata bytes left in the current metadata block.
    pub meta_remaining: nat,
}

/// What processing a run of bytes produces.
#[verifier::ext_equal]
pub struct IcyRun {
    pub phase: IcyPhase,
    /// Audio bytes passed through.
    pub audio: Seq<u8>,
    /// Metadata bytes collected.
    pub meta: Seq<u8>,
}

/// The effect of one input byte: the next phase, the audio it yields and the
/// metadata it yields.
pub open spec fn icy_step(p: IcyPhase, metaint: nat, b: u8) -> (IcyPhase, Seq<u8>, Seq<u8>) {
    if p.meta_remaining > 0 {
        (
            IcyPhase { audio_remaining: p.audio_remaining, meta_remaining: (p.meta_remaining - 1) as nat },
            Seq::empty(),
            seq![b],
        )
    } else if p.audio_remaining == 0 {
        (IcyPhase { audio_remaining: metaint, meta_remaining: (b as nat) * 16 }, Seq::empty(), Seq::empty())
    } else {
        (
            IcyPhase { audio_remaining: (p.audio_remaining - 1) as nat, meta_remaining: 0 },
            seq![b],
            Seq::empty(),
        )
    }
}

/// The effect of a run of bytes, starting in phase `p`.
pub open spec fn icy_run(p: IcyPhase, metaint: nat, bytes: Seq<u8>) -> IcyRun
    decreases bytes.len(),
{
    if bytes.len() == 0 {
        IcyRun { phase: p, audio: Seq::empty(), meta: Seq::empty() }
    } else {
        let r = icy_run(p, metaint, bytes.drop_last());
        let (q, a, m) = icy_step(r.phase, metaint, bytes.last());
        IcyRun { phase: q, audio: r.audio + a, meta: r.meta + m }
    }
}

/// The phase at the start of a stream (and after each metadata block).
pub open spec fn icy_start(metaint: nat) -> IcyPhase {
    IcyPhase { audio_remaining: metaint, meta_remaining: 0 }
}

/// One ICY frame: `metaint` audio bytes, the length byte, the metadata.
pub struct IcyFrame {
    pub audio: Seq<u8>,
    pub len_byte: u8,
    pub meta: Seq<u8>,
}

pub open spec fn frame_well_formed(f: IcyFrame, metaint: nat) -> bool {
    f.audio.len() == metaint && f.meta.len() == (f.len_byte as nat) * 16
}

pub open spec fn frame_bytes(f: IcyFrame) -> Seq<u8> {
    f.audio + seq![f.len_byte] + f.meta
}

/// The bytes of a sequence of frames, as the server sends them.
pub open spec fn frames_bytes(fs: Seq<IcyFrame>) -> Seq<u8>
    decreases fs.len(),
{
    if fs.len() == 0 {
        Seq::empty()
    } else {
        frames_bytes(fs.drop_last()) + frame_bytes(fs.last())
    }
}

/// The audio carried by a sequence of frames.
pub open spec fn frames_audio(fs: Seq<IcyFrame>) -> Seq<u8>
    decreases fs.len(),
{
    if fs.len() == 0 {
        Seq::empty()
    } else {
        frames_audio(fs.drop_last()) + fs.last().audio
    }
}

/// The metadata carried by a sequence of frames.
pub open spec fn frames_meta(fs: Seq<IcyFrame>) -> Seq<u8>
    decreases fs.len(),
{
    if fs.len() == 0 {
        Seq::empty()
    } else {
        frames_meta(fs.drop_last()) + fs.last().meta
    }
}

/// Splitting the input anywhere does not change what the stripper produces:
/// processing `a` and then `b` yields the same phase, the same audio and the
/// same metadata as processing `a + b` at once.  (Chunk boundaries of the
/// HTTP body are therefore irrelevant.)
pub proof fn icy_run_split(p: IcyPhase, metaint: nat, a: Seq<u8>, b: Seq<u8>)
    ensures
        ({
            let ra = icy_run(p, metaint, a);
            let rb = icy_run(ra.phase, metaint, b);
            let rab = icy_run(p, metaint, a + b);
            rab.phase == rb.phase && rab.audio == ra.audio + rb.audio && rab.meta == ra.meta
                + rb.meta
        }),
    decreases b.len(),
{
    if b.len() == 0 {
        assert(a + b =~= a);
        let ra = icy_run(p, metaint, a);
        assert(ra.audio + Seq::<u8>::empty() =~= ra.audio);
        assert(ra.meta + Seq::<u8>::empty() =~= ra.meta);
    } else {
        icy_run_split(p, metaint, a, b.drop_last());
        assert((a + b).drop_last() =~= a + b.drop_last());
        assert((a + b).last() == b.last());
        let ra = icy_run(p, metaint, a);
        let rb1 = icy_run(ra.phase, metaint, b.drop_last());
        let (q, x, y) = icy_step(rb1.phase, metaint, b.last());
        assert(ra.audio + rb1.audio + x =~= ra.audio + (rb1.audio + x));
        assert(ra.meta + rb1.meta + y =~= ra.meta + (rb1.meta + y));
    }
}

/// Stripping never produces more audio than it was given.
pub proof fn icy_run_audio_len(p: IcyPhase, metaint: nat, bytes: Seq<u8>)
    ensures
        icy_run(p, metaint, bytes).audio.len() <= bytes.len(),
    decreases bytes.len(),
{
    if bytes.len() > 0 {
        icy_run_audio_len(p, metaint, bytes.drop_last());
    }
}

proof fn lemma_run_audio(k: nat, metaint: nat, bytes: Seq<u8>)
    requires
        bytes.len() <= k,
    ensures
        icy_run(IcyPhase { audio_remaining: k, meta_remaining: 0 }, metaint, bytes) == (IcyRun {
            phase: IcyPhase { audio_remaining: (k - bytes.len()) as nat, meta_remaining: 0 },
            audio: bytes,
            meta: Seq::empty(),
        }),
    decreases bytes.len(),
{
    if bytes.len() > 0 {
        lemma_run_audio(k, metaint, bytes.drop_last());
        assert(bytes.drop_last() + seq![bytes.last()] =~= bytes);
        assert(Seq::<u8>::empty() + Seq::<u8>::empty() =~= Seq::<u8>::empty());
        let r = icy_run(IcyPhase { audio_remaining: k, meta_remaining: 0 }, metaint, bytes);
        assert(r.audio =~= bytes);
        assert(r.meta =~= Seq::<u8>::empty());
    } else {
        let r = icy_run(IcyPhase { audio_remaining: k, meta_remaining: 0 }, metaint, bytes);
        assert(r.audio =~= bytes);
    }
}

proof fn lemma_run_meta(a: nat, r: nat, metaint: nat, bytes: Seq<u8>)
    requires
        bytes.len() <= r,
    ensures
        icy_run(IcyPhase { audio_remaining: a, meta_remaining: r }, metaint, bytes) == (IcyRun {
            phase: IcyPhase { audio_remaining: a, meta_remaining: (r - bytes.len()) as nat },
            audio: Seq::empty(),
            meta: bytes,
        }),
    decreases bytes.len(),
{
    if bytes.len() > 0 {
        lemma_run_meta(a, r, metaint, bytes.drop_last());
        assert(bytes.drop_last() + seq![bytes.last()] =~= bytes);
        assert(Seq::<u8>::empty() + Seq::<u8>::empty() =~= Seq::<u8>::empty());
        let x = icy_run(IcyPhase { audio_remaining: a, meta_remaining: r }, metaint, bytes);
        assert(x.audio =~= Seq::<u8>::empty());
        assert(x.meta =~= bytes);
    } else {
        let x = icy_run(IcyPhase { audio_remaining: a, meta_remaining: r }, metaint, bytes);
        assert(x.meta =~= bytes);
    }
}

/// A well-formed frame, read from the start phase, yields exactly its audio
/// and its metadata and returns the stripper to the start phase.
pub proof fn icy_frame_law(metaint: nat, f: IcyFrame)
    requires
        frame_well_formed(f, metaint),
    ensures
        icy_run(icy_start(metaint), metaint, frame_bytes(f)) == (IcyRun {
            phase: icy_start(metaint),
            audio: f.audio,
            meta: f.meta,
        }),
{
    let p0 = icy_start(metaint);
    lemma_run_audio(metaint, metaint, f.audio);
    let p1 = IcyPhase { audio_remaining: 0, meta_remaining: 0 };
    let l = seq![f.len_byte];
    let p2 = IcyPhase { audio_remaining: metaint, meta_remaining: (f.len_byte as nat) * 16 };
    assert(l.drop_last() =~= Seq::<u8>::empty());
    assert(icy_run(p1, metaint, Seq::<u8>::empty()).phase == p1);
    assert(icy_run(p1, metaint, l).phase == p2);
    assert(icy_run(p1, metaint, l).audio =~= Seq::<u8>::empty());
    assert(icy_run(p1, metaint, l).meta =~= Seq::<u8>::empty());
    lemma_run_meta(metaint, (f.len_byte as nat) * 16, metaint, f.meta);
    icy_run_split(p0, metaint, f.audio, l);
    icy_run_split(p0, metaint, f.audio + l, f.meta);
    assert(f.audio + Seq::<u8>::empty() =~= f.audio);
    assert(f.audio + Seq::<u8>::empty() + Seq::<u8>::empty() =~= f.audio);
    assert(Seq::<u8>::empty() + Seq::<u8>::empty() + f.meta =~= f.meta);
}

/// A stream made of well-formed ICY frames is split exactly into its audio,
/// which passes through in order, and its metadata, which is collected.
pub proof fn icy_stream_law(metaint: nat, fs: Seq<IcyFrame>)
    requires
        forall|i: int| 0 <= i < fs.len() ==> frame_well_formed(#[trigger] fs[i], metaint),
    ensures
        icy_run(icy_start(metaint), metaint, frames_bytes(fs)) == (IcyRun {
            phase: icy_start(metaint),
            audio: frames_audio(fs),
            meta: frames_meta(fs),
        }),
    decreases fs.len(),
{
    if fs.len() == 0 {
        assert(frames_bytes(fs) =~= Seq::<u8>::empty());
    } else {
        let init = fs.drop_last();
        assert forall|i: int| 0 <= i < init.len() implies frame_well_formed(
            #[trigger] init[i],
            metaint,
        ) by {
            assert(init[i] == fs[i]);
        }
        icy_stream_law(metaint, init);
        assert(frame_well_formed(fs[fs.len() - 1], metaint));
        icy_frame_law(metaint, fs.last());
        icy_run_split(icy_start(metaint), metaint, frames_bytes(init), frame_bytes(fs.last()));
    }
}

/// Strips ICY metadata blocks from a byte stream.
pub struct IcyStripper {
    metaint: usize,
    audio_remaining: usize,
    meta_remaining: usize,
    meta_buf: Vec<u8>,
}

impl IcyStripper {
    /// The metadata interval in bytes.
    pub closed spec fn interval(&self) -> nat {
        self.metaint as nat
    }

    /// The current phase.
    pub closed spec fn phase(&self) -> IcyPhase {
        IcyPhase {
            audio_remaining: self.audio_remaining as nat,
            meta_remaining: self.meta_remaining as nat,
        }
    }

    /// Metadata bytes collected and not yet taken.
    pub closed spec fn pending_meta(&self) -> Seq<u8> {
        self.meta_buf@
    }

    pub closed spec fn wf(&self) -> bool {
        self.audio_remaining <= self.metaint
    }

    /// A stripper for a stream that carries metadata every `metaint` bytes.
    pub fn new(metaint: usize) -> (s: Self)
        ensures
            s.wf(),
            s.interval() == metaint,
            s.phase() == icy_start(metaint as nat),
            s.pending_meta() == Seq::<u8>::empty(),
    {
        IcyStripper { metaint, audio_remaining: metaint, meta_remaining: 0, meta_buf: Vec::new() }
    }

    /// Appends the audio bytes of `input` to `output` and collects its
    /// metadata bytes.
    pub fn process(&mut self, input: &[u8], output: &mut Vec<u8>)
        requires
            old(self).wf(),
        ensures
            final(self).wf(),
            final(self).interval() == old(self).interval(),
            ({
                let r = icy_run(old(self).phase(), old(self).interval(), input@);
                &&& final(self).phase() == r.phase
                &&& final(self).pending_meta() == old(self).pending_meta() + r.meta
                &&& final(output)@ == old(output)@ + r.audio
            }),
    {
        let ghost p0 = self.phase();
        let ghost m0 = self.meta_buf@;
        let ghost o0 = output@;
        let mut i: usize = 0;
        while i < input.len()
            invariant
                i <= input.len(),
                self.wf(),
                self.metaint == old(self).metaint,
                ({
                    let r = icy_run(p0, self.metaint as nat, input@.subrange(0, i as int));
                    &&& self.phase() == r.phase
                    &&& self.meta_buf@ == m0 + r.meta
                    &&& output@ == o0 + r.audio
                }),
            decreases input.len() - i,
        {
            let byte = input[i];
            proof {
                let pre = input@.subrange(0, i as int);
                let cur = input@.subrange(0, i + 1);
                assert(cur.drop_last() =~= pre);
                assert(cur.last() == byte);
            }
            if self.meta_remaining > 0 {
                self.meta_buf.push(byte);
                self.meta_remaining = self.meta_remaining - 1;
            } else if self.audio_remaining == 0 {
                self.meta_remaining = (byte as usize) * 16;
                self.audio_remaining = self.metaint;
            } else {
                output.push(byte);
                self.audio_remaining = self.audio_remaining - 1;
            }
            i += 1;
            proof {
                let cur = input@.subrange(0, i as int);
                let r = icy_run(p0, self.metaint as nat, cur);
                assert(self.meta_buf@ =~= m0 + r.meta);
                assert(output@ =~= o0 + r.audio);
            }
        }
        assert(input@.subrange(0, input@.len() as int) =~= input@);
    }

    /// Takes the collected metadata and reads the stream title from it.
    /// `None` when nothing was collected or no non-empty title is present.
    pub fn take_title(&mut self) -> (r: Option<String>)
        requires
            old(self).wf(),
        ensures
            final(self).wf(),
            final(self).interval() == old(self).interval(),
            final(self).phase() == old(self).phase(),
            final(self).pending_meta() == Seq::<u8>::empty(),
            old(self).pending_meta().len() == 0 ==> r is None,
            old(self).pending_meta().len() > 0 ==> opt_chars(r) == stream_title(
                utf8_lossy(old(self).pending_meta()),
            ),
    {
        if self.meta_buf.len() == 0 {
            return None;
        }
        let raw = utf8_lossy_chars(self.meta_buf.as_slice());
        self.meta_buf.clear();
        parse_stream_title(&raw)
    }
}

/// The characters held by an optional string.
pub open spec fn opt_chars(r: Option<String>) -> Option<Seq<char>> {
    match r {
        Some(s) => Some(s@),
        None => None,
    }
}

/// The text that introduces the title inside ICY metadata.
pub open spec fn title_key() -> Seq<char> {
    "StreamTitle='"@
}

/// The text that ends the title.
pub open spec fn title_end() -> Seq<char> {
    "';"@
}

/// The stream title in ICY metadata text: the text between the first
/// `StreamTitle='` and the next `';`, trimmed; absent when either marker is
/// missing or the trimmed title is empty.
pub open spec fn stream_title(raw: Seq<char>) -> Option<Seq<char>> {
    match find(raw, title_key()) {
        None => None,
        Some(start) => {
            let rest = raw.subrange(start + title_key().len(), raw.len() as int);
            match find(rest, title_end()) {
                None => None,
                Some(end) => {
                    let t = trim(rest.subrange(0, end));
                    if t.len() > 0 {
                        Some(t)
                    } else {
                        None
                    }
                },
            }
        },
    }
}

proof fn lemma_find_from_first(s: Seq<char>, pat: Seq<char>, i: int, j: int)
    requires
        0 <= i <= j,
        occurs_at(s, pat, j),
        forall|k: int| i <= k < j ==> !occurs_at(s, pat, k),
    ensures
        find_from(s, pat, i) == Some(j),
    decreases j - i,
{
    if i < j {
        assert(!occurs_at(s, pat, i));
        lemma_find_from_first(s, pat, i + 1, j);
    }
}

/// The title is the whole text between `StreamTitle='` and the first `';`
/// after it, trimmed: for metadata `StreamTitle='<t>';<tail>` where `t`
/// holds no `';`, the title is `t` trimmed (quotes inside `t` included),
/// and there is none when `t` is blank.
pub proof fn stream_title_law(t: Seq<char>, tail: Seq<char>)
    requires
        forall|i: int| 0 <= i < t.len() - 1 ==> !(#[trigger] t[i] == '\'' && t[i + 1] == ';'),
    ensures
        stream_title("StreamTitle='"@ + t + "';"@ + tail) == if trim(t).len() > 0 {
            Some(trim(t))
        } else {
            None::<Seq<char>>
        },
{
    reveal_strlit("StreamTitle='");
    reveal_strlit("';");
    let key = "StreamTitle='"@;
    let end = "';"@;
    let raw = key + t + end + tail;
    assert(key.len() == 13);
    assert(end.len() == 2 && end[0] == '\'' && end[1] == ';');
    assert(raw.subrange(0, 13) =~= key);
    lemma_find_from_first(raw, key, 0, 0);
    assert(title_key() == key);
    assert(title_end() == end);
    let rest = raw.subrange(13, raw.len() as int);
    assert(rest =~= t + end + tail);
    assert(rest.subrange(t.len() as int, t.len() + 2int) =~= end);
    assert forall|k: int| 0 <= k < t.len() implies !occurs_at(rest, end, k) by {
        if occurs_at(rest, end, k) {
            assert(rest.subrange(k, k + 2)[0] == '\'');
            assert(rest.subrange(k, k + 2)[1] == ';');
            assert(rest[k] == t[k]);
            if k + 1 < t.len() {
                assert(rest[k + 1] == t[k + 1]);
            } else {
                assert(rest[k + 1] == end[0]);
            }
        }
    }
    lemma_find_from_first(rest, end, 0, t.len() as int);
    assert(rest.subrange(0, t.len() as int) =~= t);
}

/// Reads the stream title from ICY metadata text.
pub fn parse_stream_title(raw: &Vec<char>) -> (r: Option<String>)
    ensures
        opt_chars(r) == stream_title(raw@),
{
    let key = chars_of("StreamTitle='");
    let end_marker = chars_of("';");
    match find_chars(raw, &key, 0) {
        None => None,
        Some(start) => {
            proof {
                lemma_find_from(raw@, key@, 0);
                assert(find_from(raw@, key@, 0) == Some(start as int));
                assert(start + key@.len() <= raw@.len());
            }
            let klen = key.len();
            assert(start + klen <= raw.len());
            let rest = chars_slice(raw, start + klen, raw.len());
            match find_chars(&rest, &end_marker, 0) {
                None => None,
                Some(end) => {
                    proof {
                        lemma_find_from(rest@, end_marker@, 0);
                    }
                    let inner = chars_slice(&rest, 0, end);
                    let t = trim_chars(&inner);
                    if t.len() > 0 {
                        Some(string_from_chars(&t))
                    } else {
                        None
                    }
                },
            }
        },
    }
}

/// The text `String::from_utf8_lossy` makes of `bytes`: valid UTF-8 decoded,
/// each invalid sequence replaced by U+FFFD.
pub uninterp spec fn utf8_lossy(bytes: Seq<u8>) -> Seq<char>;

/// Calls `String::from_utf8_lossy`.  Its result is named `utf8_lossy`; for
/// valid UTF-8 it is the decoded text.  How invalid sequences are replaced is
/// left to the name.
#[verifier::external_body]
fn utf8_lossy_chars(bytes: &[u8]) -> (r: Vec<char>)
    ensures
        r@ == utf8_lossy(bytes@),
        valid_utf8(bytes@) ==> r@ == decode_utf8(bytes@),
{
    String::from_utf8_lossy(bytes).chars().collect()
}

} // verus!
