//! Generation of the `pcm.inferno_iradio_N` blocks that the bridge adds to
//! `~/.asoundrc`.  The values (bind address, device id, clock path, device
//! name) are read from the Inferno PCM entries already in the file.  The
//! file itself is read and written by the application.

use vstd::prelude::*;
use vstd::string::StringSliceAdditionalSpecFns;
use vstd::utf8::{decode_utf8, encode_utf8, encode_utf8_decode_utf8, is_char_boundary};

use crate::text::{
    chars_of, chars_slice, dec_chars, dec_string, find, find_chars, occurs_at, hex4_chars, hex4_string,
    parse_hex_u32, parse_hex_u32_spec, push_chars, push_str, string_from_chars, trim, trim_char,
    trim_char_chars, trim_chars, trim_end, is_white_space, is_whitespace,
};

verus! {

/// Index of the end of the line that starts at `start`: the next `\n` or
/// the end of the text.
pub open spec fn line_end(c: Seq<char>, start: int) -> int
    decreases c.len() - start,
{
    if start >= c.len() {
        c.len() as int
    } else if c[start] == '\n' {
        start
    } else {
        line_end(c, start + 1)
    }
}

pub proof fn lemma_line_end(c: Seq<char>, start: int)
    requires
        0 <= start <= c.len(),
    ensures
        start <= line_end(c, start) <= c.len(),
        line_end(c, start) < c.len() ==> c[line_end(c, start)] == '\n',
        forall|k: int| start <= k < line_end(c, start) ==> c[k] != '\n',
    decreases c.len() - start,
{
    if start < c.len() && c[start] != '\n' {
        lemma_line_end(c, start + 1);
    }
}

/// The value a line gives for `field`: the trimmed line must start with
/// `field`; the rest, trimmed and stripped of surrounding `"`, must not be
/// empty.
pub open spec fn field_value(line: Seq<char>, field: Seq<char>) -> Option<Seq<char>> {
    let t = trim(line);
    if field.len() <= t.len() && t.subrange(0, field.len() as int) == field {
        let v = trim_char(trim(t.subrange(field.len() as int, t.len() as int)), '"');
        if v.len() > 0 {
            Some(v)
        } else {
            None
        }
    } else {
        None
    }
}

/// The first value for `field` in the lines starting at `start`.
pub open spec fn extract_from(c: Seq<char>, field: Seq<char>, start: int) -> Option<Seq<char>>
    decreases c.len() + 1 - start,
{
    if start < 0 || start > c.len() {
        None
    } else {
        let e = line_end(c, start);
        match field_value(c.subrange(start, e), field) {
            Some(v) => Some(v),
            None => if e >= c.len() {
                None
            } else {
                proof {
                    lemma_line_end(c, start);
                }
                extract_from(c, field, e + 1)
            },
        }
    }
}

/// The first value for `field` in the text, line by line.
pub open spec fn extract_field_spec(c: Seq<char>, field: Seq<char>) -> Option<Seq<char>> {
    extract_from(c, field, 0)
}

fn field_value_exec(line: &Vec<char>, field: &Vec<char>) -> (r: Option<Vec<char>>)
    ensures
        r matches Some(v) ==> field_value(line@, field@) == Some(v@),
        r is None ==> field_value(line@, field@) is None,
{
    let t = trim_chars(line);
    if field.len() <= t.len() {
        let head = chars_slice(&t, 0, field.len());
        let mut same = true;
        let mut k: usize = 0;
        assert(head@.subrange(0, 0) =~= field@.subrange(0, 0));
        while k < field.len()
            invariant
                k <= field.len(),
                head@.len() == field@.len(),
                same == (head@.subrange(0, k as int) == field@.subrange(0, k as int)),
            decreases field.len() - k,
        {
            if head[k] != field[k] {
                same = false;
                assert(head@.subrange(0, k + 1)[k as int] != field@.subrange(0, k + 1)[k as int]);
            } else {
                if same {
                    assert(head@.subrange(0, k + 1) =~= field@.subrange(0, k + 1));
                } else {
                    assert(head@.subrange(0, k as int) =~= head@.subrange(0, k + 1).subrange(0, k as int));
                    assert(field@.subrange(0, k as int) =~= field@.subrange(0, k + 1).subrange(0, k as int));
                }
            }
            k += 1;
        }
        assert(head@.subrange(0, field@.len() as int) =~= head@);
        assert(field@.subrange(0, field@.len() as int) =~= field@);
        if same {
            let rest = chars_slice(&t, field.len(), t.len());
            let rt = trim_chars(&rest);
            let v = trim_char_chars(&rt, '"');
            if v.len() > 0 {
                return Some(v);
            }
        }
    }
    None
}

/// The first value that a line of `content` gives for `field` (see
/// `field_value`).
pub fn extract_field(content: &Vec<char>, field: &Vec<char>) -> (r: Option<Vec<char>>)
    ensures
        r matches Some(v) ==> extract_field_spec(content@, field@) == Some(v@),
        r is None ==> extract_field_spec(content@, field@) is None,
{
    let mut start: usize = 0;
    loop
        invariant
            start <= content@.len(),
            extract_field_spec(content@, field@) == extract_from(content@, field@, start as int),
        decreases content@.len() - start,
    {
        let mut e = start;
        while e < content.len() && content[e] != '\n'
            invariant
                start <= e <= content@.len(),
                line_end(content@, start as int) == line_end(content@, e as int),
            decreases content@.len() - e,
        {
            e += 1;
        }
        assert(line_end(content@, e as int) == e);
        let line = chars_slice(content, start, e);
        match field_value_exec(&line, field) {
            Some(v) => {
                return Some(v);
            },
            None => {
                if e >= content.len() {
                    return None;
                }
                start = e + 1;
            },
        }
    }
}

/// The text whose presence shows that the blocks were written already.
pub open spec fn setup_marker() -> Seq<char> {
    "pcm.inferno_iradio_1"@
}

pub open spec fn bind_ip_missing_message() -> Seq<char> {
    "BIND_IP not found in .asoundrc — is the Inferno appliance configured?"@
}

pub open spec fn device_id_missing_message() -> Seq<char> {
    "DEVICE_ID not found in .asoundrc"@
}

/// The device id prefix: the first 12 bytes of the base device id, or all
/// of it when it is shorter.
pub open spec fn id_prefix(id: Seq<char>) -> Seq<char> {
    let b = encode_utf8(id);
    if b.len() >= 12 {
        decode_utf8(b.subrange(0, 12))
    } else {
        id
    }
}

/// The text of the base suffix: the last 4 bytes of the base device id, or
/// `0` when it is shorter.
pub open spec fn id_suffix_text(id: Seq<char>) -> Seq<char> {
    let b = encode_utf8(id);
    if b.len() >= 4 {
        decode_utf8(b.subrange(b.len() - 4, b.len() as int))
    } else {
        "0"@
    }
}

/// The base suffix: `id_suffix_text` read as hexadecimal, 0 when that fails.
pub open spec fn id_suffix_value(id: Seq<char>) -> nat {
    match parse_hex_u32_spec(id_suffix_text(id)) {
        Some(v) => v,
        None => 0,
    }
}

/// The device id can be cut at byte 12 and 4 bytes before its end (true of
/// every ASCII id).
pub open spec fn id_sliceable(id: Seq<char>) -> bool {
    let b = encode_utf8(id);
    &&& b.len() >= 12 ==> is_char_boundary(b, 12)
    &&& b.len() >= 4 ==> is_char_boundary(b, b.len() - 4)
}

/// The numbers of slots `1..=max` stay within the integer types used for
/// the process ids, ports and device ids.
pub open spec fn slot_numbers_fit(max: nat, suffix: nat) -> bool {
    &&& 9 + max <= usize::MAX
    &&& max >= 1 ==> 6100 + (max - 1) * 20 <= usize::MAX
    &&& suffix + 9 + max <= u32::MAX
}

/// The PCM block of one slot.
pub open spec fn slot_block(
    slot: nat,
    name: Seq<char>,
    bind_ip: Seq<char>,
    clock_path: Seq<char>,
    prefix: Seq<char>,
    suffix: nat,
) -> Seq<char> {
    "\n# iradio-bridge Dante TX slot "@ + dec_chars(slot) + "\npcm.inferno_iradio_"@ + dec_chars(slot)
        + " {\n    type inferno\n    NAME \""@ + name + "-ir"@ + dec_chars(slot)
        + "\"\n    BIND_IP "@ + bind_ip + "\n    SAMPLE_RATE 48000\n    PROCESS_ID "@ + dec_chars(
        9 + slot,
    ) + "\n    ALT_PORT "@ + dec_chars((6100 + (slot - 1) * 20) as nat)
        + "\n    RX_CHANNELS 0\n    TX_CHANNELS 2\n    TX_LATENCY_NS 10000000\n    RX_LATENCY_NS 10000000\n    CLOCK_PATH "@
        + clock_path + "\n    DEVICE_ID "@ + prefix + hex4_chars(suffix + 9 + slot)
        + "\n    hint { show off description \"Inferno iradio slot "@ + dec_chars(slot)
        + " TX\" }\n}\n"@
}

proof fn lemma_occurs_append(a: Seq<char>, x: Seq<char>, i: int, c: Seq<char>)
    requires
        occurs_at(a, x, i),
    ensures
        occurs_at(a + c, x, i),
{
    assert((a + c).subrange(i, i + x.len()) =~= a.subrange(i, i + x.len()));
}

proof fn lemma_occurs_prepend(b: Seq<char>, a: Seq<char>, x: Seq<char>, i: int)
    requires
        occurs_at(a, x, i),
    ensures
        occurs_at(b + a, x, b.len() + i),
{
    assert((b + a).subrange(b.len() + i, b.len() + i + x.len()) =~= a.subrange(i, i + x.len()));
}

/// The `ALT_PORT` line of slot `s`: port `6100 + 20 (s - 1)`.
pub open spec fn alt_port_line(s: nat) -> Seq<char> {
    "ALT_PORT "@ + dec_chars((6100 + 20 * (s - 1)) as nat) + "\n"@
}

proof fn lemma_slot_block_alt_port(
    slot: nat,
    name: Seq<char>,
    bind_ip: Seq<char>,
    clock_path: Seq<char>,
    prefix: Seq<char>,
    suffix: nat,
)
    requires
        slot >= 1,
    ensures
        exists|i: int| occurs_at(slot_block(slot, name, bind_ip, clock_path, prefix, suffix), alt_port_line(slot), i),
{
    reveal_strlit("\n    ALT_PORT ");
    reveal_strlit("ALT_PORT ");
    reveal_strlit("\n");
    reveal_strlit(
        "\n    RX_CHANNELS 0\n    TX_CHANNELS 2\n    TX_LATENCY_NS 10000000\n    RX_LATENCY_NS 10000000\n    CLOCK_PATH ",
    );
    let z = "\n# iradio-bridge Dante TX slot "@ + dec_chars(slot) + "\npcm.inferno_iradio_"@ + dec_chars(slot)
        + " {\n    type inferno\n    NAME \""@ + name + "-ir"@ + dec_chars(slot)
        + "\"\n    BIND_IP "@ + bind_ip + "\n    SAMPLE_RATE 48000\n    PROCESS_ID "@ + dec_chars(
        9 + slot,
    );
    let l1 = "\n    ALT_PORT "@;
    let d = dec_chars((6100 + 20 * (slot - 1)) as nat);
    let l2 = "\n    RX_CHANNELS 0\n    TX_CHANNELS 2\n    TX_LATENCY_NS 10000000\n    RX_LATENCY_NS 10000000\n    CLOCK_PATH "@;
    let w = z + l1 + d + l2;
    let x = alt_port_line(slot);
    let j: int = z.len() + 5int;
    assert(l1.len() == 14);
    assert(x.len() == 10 + d.len());
    assert(w.subrange(j, j + x.len()) =~= x) by {
        assert forall|k: int| 0 <= k < x.len() implies w.subrange(j, j + x.len())[k] == x[k] by {
            if k < 9 {
                assert(w[j + k] == l1[5 + k]);
            } else if k < 9 + d.len() {
                assert(w[j + k] == d[k - 9]);
            } else {
                assert(w[j + k] == l2[0]);
            }
        }
    }
    assert(occurs_at(w, x, j));
    let w1 = w + clock_path;
    lemma_occurs_append(w, x, j, clock_path);
    let w2 = w1 + "\n    DEVICE_ID "@;
    lemma_occurs_append(w1, x, j, "\n    DEVICE_ID "@);
    let w3 = w2 + prefix;
    lemma_occurs_append(w2, x, j, prefix);
    let w4 = w3 + hex4_chars(suffix + 9 + slot);
    lemma_occurs_append(w3, x, j, hex4_chars(suffix + 9 + slot));
    let w5 = w4 + "\n    hint { show off description \"Inferno iradio slot "@;
    lemma_occurs_append(w4, x, j, "\n    hint { show off description \"Inferno iradio slot "@);
    let w6 = w5 + dec_chars(slot);
    lemma_occurs_append(w5, x, j, dec_chars(slot));
    let w7 = w6 + " TX\" }\n}\n"@;
    lemma_occurs_append(w6, x, j, " TX\" }\n}\n"@);
    assert(slot_block(slot, name, bind_ip, clock_path, prefix, suffix) == w7);
}

proof fn lemma_slot_blocks_alt_port(
    k: nat,
    s: nat,
    name: Seq<char>,
    bind_ip: Seq<char>,
    clock_path: Seq<char>,
    prefix: Seq<char>,
    suffix: nat,
)
    requires
        1 <= s <= k,
    ensures
        exists|i: int| occurs_at(slot_blocks(k, name, bind_ip, clock_path, prefix, suffix), alt_port_line(s), i),
    decreases k,
{
    let prev = slot_blocks((k - 1) as nat, name, bind_ip, clock_path, prefix, suffix);
    let blk = slot_block(k, name, bind_ip, clock_path, prefix, suffix);
    if s == k {
        lemma_slot_block_alt_port(k, name, bind_ip, clock_path, prefix, suffix);
        let i = choose|i: int| occurs_at(blk, alt_port_line(s), i);
        lemma_occurs_prepend(prev, blk, alt_port_line(s), i);
        assert(occurs_at(slot_blocks(k, name, bind_ip, clock_path, prefix, suffix), alt_port_line(s), prev.len() + i));
    } else {
        lemma_slot_blocks_alt_port((k - 1) as nat, s, name, bind_ip, clock_path, prefix, suffix);
        let i = choose|i: int| occurs_at(prev, alt_port_line(s), i);
        lemma_occurs_append(prev, alt_port_line(s), i, blk);
        assert(occurs_at(slot_blocks(k, name, bind_ip, clock_path, prefix, suffix), alt_port_line(s), i));
    }
}

/// Each slot's block is on its own ALT_PORT: the written configuration
/// holds, for every slot `s` in `1..=max`, the line
/// `ALT_PORT <6100 + 20 (s - 1)>` (6100, 6120, 6140, 6160 for four
/// slots), so no two slots share a port.
pub proof fn alt_ports_law(c: Seq<char>, max: nat, out: Seq<char>, s: nat)
    requires
        asoundrc_update(c, max) == Ok::<Option<Seq<char>>, Seq<char>>(Some(out)),
        1 <= s <= max,
    ensures
        exists|i: int| #[trigger] occurs_at(out, "ALT_PORT "@ + dec_chars((6100 + 20 * (s - 1)) as nat) + "\n"@, i),
{
    let bind_ip = extract_field_spec(c, "BIND_IP"@)->Some_0;
    let id = extract_field_spec(c, "DEVICE_ID"@)->Some_0;
    let clock = match extract_field_spec(c, "CLOCK_PATH"@) {
        Some(v) => v,
        None => "/tmp/ptp-usrvclock"@,
    };
    let name = match extract_field_spec(c, "NAME"@) {
        Some(v) => v,
        None => "Inferno"@,
    };
    let blocks = slot_blocks(max, name, bind_ip, clock, id_prefix(id), id_suffix_value(id));
    assert(out == trim_end(c) + "\n"@ + blocks);
    lemma_slot_blocks_alt_port(max, s, name, bind_ip, clock, id_prefix(id), id_suffix_value(id));
    let i = choose|i: int| occurs_at(blocks, alt_port_line(s), i);
    lemma_occurs_prepend(trim_end(c) + "\n"@, blocks, alt_port_line(s), i);
    assert(occurs_at(out, alt_port_line(s), (trim_end(c) + "\n"@).len() + i));
}

/// The blocks of slots `1..=k`, in order.
pub open spec fn slot_blocks(
    k: nat,
    name: Seq<char>,
    bind_ip: Seq<char>,
    clock_path: Seq<char>,
    prefix: Seq<char>,
    suffix: nat,
) -> Seq<char>
    decreases k,
{
    if k == 0 {
        Seq::empty()
    } else {
        slot_blocks((k - 1) as nat, name, bind_ip, clock_path, prefix, suffix) + slot_block(
            k,
            name,
            bind_ip,
            clock_path,
            prefix,
            suffix,
        )
    }
}

/// What `.asoundrc` becomes: `Ok(None)` when the blocks are present
/// already; otherwise the blocks for slots `1..=max` appended after the
/// content (trailing white space removed) and a newline; an error when
/// `BIND_IP` or `DEVICE_ID` is missing.  `CLOCK_PATH` defaults to
/// `/tmp/ptp-usrvclock` and `NAME` to `Inferno`.
pub open spec fn asoundrc_update(c: Seq<char>, max: nat) -> Result<Option<Seq<char>>, Seq<char>> {
    if find(c, setup_marker()) is Some {
        Ok(None)
    } else {
        match extract_field_spec(c, "BIND_IP"@) {
            None => Err(bind_ip_missing_message()),
            Some(bind_ip) => match extract_field_spec(c, "DEVICE_ID"@) {
                None => Err(device_id_missing_message()),
                Some(id) => {
                    let clock = match extract_field_spec(c, "CLOCK_PATH"@) {
                        Some(v) => v,
                        None => "/tmp/ptp-usrvclock"@,
                    };
                    let name = match extract_field_spec(c, "NAME"@) {
                        Some(v) => v,
                        None => "Inferno"@,
                    };
                    Ok(
                        Some(
                            trim_end(c) + "\n"@ + slot_blocks(
                                max,
                                name,
                                bind_ip,
                                clock,
                                id_prefix(id),
                                id_suffix_value(id),
                            ),
                        ),
                    )
                },
            },
        }
    }
}

/// Whether generating the blocks works on this content: when blocks must
/// be written, the device id can be cut and the slot numbers fit.
pub open spec fn asoundrc_update_defined(c: Seq<char>, max: nat) -> bool {
    find(c, setup_marker()) is None && extract_field_spec(c, "BIND_IP"@) is Some ==> match extract_field_spec(
        c,
        "DEVICE_ID"@,
    ) {
        Some(id) => id_sliceable(id) && slot_numbers_fit(max, id_suffix_value(id)),
        None => true,
    }
}

#[verifier::spinoff_prover]
#[verifier::rlimit(50)]
fn push_slot_block(
    out: &mut String,
    slot: usize,
    name: &Vec<char>,
    bind_ip: &Vec<char>,
    clock_path: &Vec<char>,
    prefix: &Vec<char>,
    suffix: u32,
)
    requires
        1 <= slot,
        slot_numbers_fit(slot as nat, suffix as nat),
    ensures
        final(out)@ == old(out)@ + slot_block(
            slot as nat,
            name@,
            bind_ip@,
            clock_path@,
            prefix@,
            suffix as nat,
        ),
{
    let ghost o = out@;
    let d = dec_string(slot as u64);
    let pid = dec_string((9 + slot) as u64);
    let port = dec_string((6100 + (slot - 1) * 20) as u64);
    let dev = hex4_string((suffix + 9 + slot as u32) as u64);
    push_str(out, "\n# iradio-bridge Dante TX slot ");
    push_str(out, d.as_str());
    push_str(out, "\npcm.inferno_iradio_");
    push_str(out, d.as_str());
    push_str(out, " {\n    type inferno\n    NAME \"");
    push_chars(out, name);
    push_str(out, "-ir");
    push_str(out, d.as_str());
    push_str(out, "\"\n    BIND_IP ");
    push_chars(out, bind_ip);
    push_str(out, "\n    SAMPLE_RATE 48000\n    PROCESS_ID ");
    push_str(out, pid.as_str());
    push_str(out, "\n    ALT_PORT ");
    push_str(out, port.as_str());
    push_str(
        out,
        "\n    RX_CHANNELS 0\n    TX_CHANNELS 2\n    TX_LATENCY_NS 10000000\n    RX_LATENCY_NS 10000000\n    CLOCK_PATH ",
    );
    push_chars(out, clock_path);
    push_str(out, "\n    DEVICE_ID ");
    push_chars(out, prefix);
    push_str(out, dev.as_str());
    push_str(out, "\n    hint { show off description \"Inferno iradio slot ");
    push_str(out, d.as_str());
    push_str(out, " TX\" }\n}\n");
    assert(out@ =~= o + slot_block(
        slot as nat,
        name@,
        bind_ip@,
        clock_path@,
        prefix@,
        suffix as nat,
    ));
}

/// The device id prefix and base suffix of a device id.
fn id_parts(id: &Vec<char>) -> (r: (Vec<char>, u32))
    requires
        id_sliceable(id@),
    ensures
        r.0@ == id_prefix(id@),
        r.1 == id_suffix_value(id@),
{
    let s = string_from_chars(id);
    let st = s.as_str();
    let blen = st.as_bytes().len();
    proof {
        assert(st.spec_bytes() == encode_utf8(id@));
    }
    let prefix = if blen >= 12 {
        let (a, _z) = st.split_at(12);
        proof {
            encode_utf8_decode_utf8(a@);
            assert(a.spec_bytes() == encode_utf8(a@));
        }
        chars_of(a)
    } else {
        chars_slice(id, 0, id.len())
    };
    proof {
        if blen < 12 {
            assert(id@.subrange(0, id@.len() as int) =~= id@);
        }
    }
    let suffix_text: &str = if blen >= 4 {
        assert(is_char_boundary(encode_utf8(id@), encode_utf8(id@).len() - 4));
        assert(is_char_boundary(st.spec_bytes(), (blen - 4) as int));
        let (_a, z) = st.split_at(blen - 4);
        proof {
            encode_utf8_decode_utf8(z@);
            assert(z.spec_bytes() == encode_utf8(z@));
        }
        z
    } else {
        "0"
    };
    let suffix = match parse_hex_u32(suffix_text) {
        Some(v) => v,
        None => 0,
    };
    (prefix, suffix)
}

/// Whether `plan_asoundrc_update` is defined on this content: when blocks
/// must be written, the device id can be cut at its byte positions 12 and
/// `len - 4`, and the slot numbers fit.
pub fn asoundrc_update_is_defined(content: &str, max_slots: usize) -> (b: bool)
    ensures
        b == asoundrc_update_defined(content@, max_slots as nat),
{
    let c = chars_of(content);
    let marker = chars_of("pcm.inferno_iradio_1");
    if find_chars(&c, &marker, 0).is_some() {
        return true;
    }
    let bind_key = chars_of("BIND_IP");
    if extract_field(&c, &bind_key).is_none() {
        return true;
    }
    let id_key = chars_of("DEVICE_ID");
    match extract_field(&c, &id_key) {
        None => true,
        Some(id) => {
            let s = string_from_chars(&id);
            let st = s.as_str();
            let blen = st.as_bytes().len();
            proof {
                assert(st.spec_bytes() == encode_utf8(id@));
            }
            if blen >= 12 && !st.is_char_boundary(12) {
                assert(!id_sliceable(id@));
                return false;
            }
            if blen >= 4 && !st.is_char_boundary(blen - 4) {
                assert(!is_char_boundary(st.spec_bytes(), (blen - 4) as int));
                assert(!id_sliceable(id@));
                return false;
            }
            assert(id_sliceable(id@));
            let (_prefix, suffix) = id_parts(&id);
            if max_slots > usize::MAX - 9 {
                return false;
            }
            if max_slots >= 1 && max_slots - 1 > (usize::MAX - 6100) / 20 {
                return false;
            }
            if (suffix as u64) + 9 + (max_slots as u64) > u32::MAX as u64 {
                return false;
            }
            true
        },
    }
}

/// The new `.asoundrc` content (see `asoundrc_update`).
pub fn plan_asoundrc_update(content: &str, max_slots: usize) -> (r: Result<Option<String>, String>)
    requires
        asoundrc_update_defined(content@, max_slots as nat),
    ensures
        match (r, asoundrc_update(content@, max_slots as nat)) {
            (Ok(None), Ok(None)) => true,
            (Ok(Some(t)), Ok(Some(u))) => t@ == u,
            (Err(e), Err(m)) => e@ == m,
            _ => false,
        },
{
    let c = chars_of(content);
    let marker = chars_of("pcm.inferno_iradio_1");
    if find_chars(&c, &marker, 0).is_some() {
        return Ok(None);
    }
    let bind_key = chars_of("BIND_IP");
    let bind_ip = match extract_field(&c, &bind_key) {
        None => {
            let mut m = String::new();
            push_str(&mut m, "BIND_IP not found in .asoundrc — is the Inferno appliance configured?");
            return Err(m);
        },
        Some(v) => v,
    };
    let id_key = chars_of("DEVICE_ID");
    let id = match extract_field(&c, &id_key) {
        None => {
            let mut m = String::new();
            push_str(&mut m, "DEVICE_ID not found in .asoundrc");
            return Err(m);
        },
        Some(v) => v,
    };
    let clock_key = chars_of("CLOCK_PATH");
    let clock = match extract_field(&c, &clock_key) {
        Some(v) => v,
        None => chars_of("/tmp/ptp-usrvclock"),
    };
    let name_key = chars_of("NAME");
    let name = match extract_field(&c, &name_key) {
        Some(v) => v,
        None => chars_of("Inferno"),
    };
    let (prefix, suffix) = id_parts(&id);
    let mut blocks = String::new();
    let mut slot: usize = 1;
    while slot <= max_slots
        invariant
            1 <= slot,
            slot <= max_slots + 1,
            slot_numbers_fit(max_slots as nat, suffix as nat),
            blocks@ == slot_blocks((slot - 1) as nat, name@, bind_ip@, clock@, prefix@, suffix as nat),
        decreases max_slots + 1 - slot,
    {
        push_slot_block(&mut blocks, slot, &name, &bind_ip, &clock, &prefix, suffix);
        slot += 1;
    }
    let mut out = String::new();
    let mut hi: usize = c.len();
    assert(c@.subrange(0, c@.len() as int) =~= c@);
    while hi > 0 && is_whitespace(c[hi - 1])
        invariant
            hi <= c@.len(),
            trim_end(c@) == trim_end(c@.subrange(0, hi as int)),
        decreases hi,
    {
        let ghost t = c@.subrange(0, hi as int);
        assert(t.drop_last() =~= c@.subrange(0, hi - 1));
        hi -= 1;
    }
    proof {
        let t = c@.subrange(0, hi as int);
        if t.len() > 0 {
            assert(t.last() == c@[hi - 1]);
        }
    }
    let kept = chars_slice(&c, 0, hi);
    push_chars(&mut out, &kept);
    push_str(&mut out, "\n");
    push_str(&mut out, blocks.as_str());
    Ok(Some(out))
}

} // verus!
