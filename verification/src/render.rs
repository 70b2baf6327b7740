use vstd::prelude::*;

verus! {

pub open spec fn spec_digit(d: int) -> Seq<char> {
    if d == 0 {
        "0"@
    } else if d == 1 {
        "1"@
    } else if d == 2 {
        "2"@
    } else if d == 3 {
        "3"@
    } else if d == 4 {
        "4"@
    } else if d == 5 {
        "5"@
    } else if d == 6 {
        "6"@
    } else if d == 7 {
        "7"@
    } else if d == 8 {
        "8"@
    } else {
        "9"@
    }
}

pub fn digit_str(d: u8) -> (r: &'static str)
    requires
        d < 10,
    ensures
        r@ == spec_digit(d as int),
{
    match d {
        0 => "0",
        1 => "1",
        2 => "2",
        3 => "3",
        4 => "4",
        5 => "5",
        6 => "6",
        7 => "7",
        8 => "8",
        _ => "9",
    }
}

pub open spec fn spec_hex_digit(d: int) -> Seq<char> {
    if d < 10 {
        spec_digit(d)
    } else if d == 10 {
        "a"@
    } else if d == 11 {
        "b"@
    } else if d == 12 {
        "c"@
    } else if d == 13 {
        "d"@
    } else if d == 14 {
        "e"@
    } else {
        "f"@
    }
}

pub fn hex_digit_str(d: u8) -> (r: &'static str)
    requires
        d < 16,
    ensures
        r@ == spec_hex_digit(d as int),
{
    if d < 10 {
        digit_str(d)
    } else {
        match d {
            10 => "a",
            11 => "b",
            12 => "c",
            13 => "d",
            14 => "e",
            _ => "f",
        }
    }
}

pub open spec fn pow16(e: int) -> int
    decreases e,
{
    if e <= 0 {
        1
    } else {
        16 * pow16(e - 1)
    }
}

pub proof fn lemma_pow16_pos(e: int)
    ensures
        pow16(e) >= 1,
    decreases e,
{
    if e > 0 {
        lemma_pow16_pos(e - 1);
    }
}

/// The `i`-th hexadecimal digit of `id`, counting from the least significant.
pub open spec fn spec_nibble(id: u128, i: int) -> int {
    (id as int / pow16(i)) % 16
}

pub open spec fn spec_uuid_nibbles(id: u128) -> Seq<int> {
    Seq::new(32, |i: int| spec_nibble(id, i))
}

/// The hexadecimal digits `nibs[hi]`, `nibs[hi - 1]`, ..., `nibs[lo]`, most
/// significant first.
pub open spec fn spec_hex_run(nibs: Seq<int>, hi: int, lo: int) -> Seq<char>
    decreases hi + 1 - lo,
{
    if hi < lo {
        Seq::empty()
    } else {
        spec_hex_run(nibs, hi, lo + 1) + spec_hex_digit(nibs[lo])
    }
}

/// The canonical textual form of a UUID whose 128 bits are `id`: five groups
/// of 8, 4, 4, 4 and 12 lowercase hexadecimal digits, most significant first,
/// separated by hyphens.
pub open spec fn spec_uuid(id: u128) -> Seq<char> {
    let n = spec_uuid_nibbles(id);
    spec_hex_run(n, 31, 24) + "-"@ + spec_hex_run(n, 23, 20) + "-"@ + spec_hex_run(n, 19, 16)
        + "-"@ + spec_hex_run(n, 15, 12) + "-"@ + spec_hex_run(n, 11, 0)
}

fn uuid_nibbles(id: u128) -> (r: Vec<u8>)
    ensures
        r@.len() == 32,
        forall|i: int| 0 <= i < 32 ==> (#[trigger] r@[i]) < 16 && r@[i] as int == spec_nibble(id, i),
{
    let mut out: Vec<u8> = Vec::new();
    let mut cur: u128 = id;
    let mut i: usize = 0;
    while i < 32
        invariant
            i <= 32,
            out@.len() == i,
            cur as int == id as int / pow16(i as int),
            forall|j: int|
                0 <= j < i ==> (#[trigger] out@[j]) < 16 && out@[j] as int == spec_nibble(id, j),
        decreases 32 - i,
    {
        out.push((cur % 16) as u8);
        proof {
            lemma_pow16_pos(i as int);
            vstd::arithmetic::div_mod::lemma_div_denominator(id as int, pow16(i as int), 16);
        }
        cur = cur / 16;
        i = i + 1;
    }
    out
}

fn append_hex_run(out: &mut String, nibs: &Vec<u8>, hi: usize, lo: usize)
    requires
        hi < nibs@.len(),
        hi < 32,
        lo <= hi,
        forall|i: int| 0 <= i < nibs@.len() ==> (#[trigger] nibs@[i]) < 16,
    ensures
        final(out)@ == old(out)@ + spec_hex_run(
            nibs@.map_values(|v: u8| v as int),
            hi as int,
            lo as int,
        ),
{
    let ghost nib_ints = nibs@.map_values(|v: u8| v as int);
    let mut i: usize = hi + 1;
    while i > lo
        invariant
            lo <= i <= hi + 1,
            hi < nibs@.len(),
            forall|k: int| 0 <= k < nibs@.len() ==> (#[trigger] nibs@[k]) < 16,
            nib_ints == nibs@.map_values(|v: u8| v as int),
            out@ == old(out)@ + spec_hex_run(nib_ints, hi as int, i as int),
        decreases i,
    {
        i = i - 1;
        out.append(hex_digit_str(nibs[i]));
        proof {
            assert(nib_ints[i as int] == nibs@[i as int] as int);
        }
    }
}

/// The canonical textual form of the UUID whose 128 bits are `id`.
pub fn render_uuid(id: u128) -> (r: String)
    ensures
        r@ == spec_uuid(id),
{
    let nibs = uuid_nibbles(id);
    proof {
        assert(nibs@.map_values(|v: u8| v as int) =~= spec_uuid_nibbles(id));
    }
    let mut out = String::new();
    append_hex_run(&mut out, &nibs, 31, 24);
    out.append("-");
    append_hex_run(&mut out, &nibs, 23, 20);
    out.append("-");
    append_hex_run(&mut out, &nibs, 19, 16);
    out.append("-");
    append_hex_run(&mut out, &nibs, 15, 12);
    out.append("-");
    append_hex_run(&mut out, &nibs, 11, 0);
    out
}

} // verus!
