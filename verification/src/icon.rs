//! The Windows icon (ICO) file format: building a multi-size icon from
//! image payloads, encoding a 32-bit DIB payload from RGBA pixels, and
//! picking the largest image out of an icon file.
use vstd::prelude::*;

verus! {

/// Little-endian bytes of a 16-bit value.
pub open spec fn le16(v: nat) -> Seq<u8> {
    seq![(v % 256) as u8, ((v / 256) % 256) as u8]
}

/// Little-endian bytes of a 32-bit value.
pub open spec fn le32(v: nat) -> Seq<u8> {
    seq![
        (v % 256) as u8,
        ((v / 0x100) % 256) as u8,
        ((v / 0x1_0000) % 256) as u8,
        ((v / 0x100_0000) % 256) as u8,
    ]
}

/// The 16-bit little-endian value at `i`.
pub open spec fn read16(d: Seq<u8>, i: int) -> nat {
    (d[i] + 256 * d[i + 1]) as nat
}

/// The 32-bit little-endian value at `i`.
pub open spec fn read32(d: Seq<u8>, i: int) -> nat {
    (d[i] + 0x100 * d[i + 1] + 0x1_0000 * d[i + 2] + 0x100_0000 * d[i + 3]) as nat
}

fn push16(out: &mut Vec<u8>, v: u16)
    ensures
        final(out)@ == old(out)@ + le16(v as nat),
{
    out.push((v % 256) as u8);
    out.push((v / 256) as u8);
    assert(out@ =~= old(out)@ + le16(v as nat));
}

fn push32(out: &mut Vec<u8>, v: u32)
    ensures
        final(out)@ == old(out)@ + le32(v as nat),
{
    out.push((v % 256) as u8);
    out.push(((v / 0x100) % 256) as u8);
    out.push(((v / 0x1_0000) % 256) as u8);
    out.push((v / 0x100_0000) as u8);
    assert(out@ =~= old(out)@ + le32(v as nat));
}

fn push_all(out: &mut Vec<u8>, data: &[u8])
    ensures
        final(out)@ == old(out)@ + data@,
{
    let ghost start = out@;
    let mut i: usize = 0;
    while i < data.len()
        invariant
            i <= data@.len(),
            out@ == start + data@.take(i as int),
        decreases data@.len() - i,
    {
        out.push(data[i]);
        i = i + 1;
        assert(out@ =~= start + data@.take(i as int));
    }
    assert(data@.take(data@.len() as int) =~= data@);
}

// ---------------------------------------------------------------------------
// Building an icon file
// ---------------------------------------------------------------------------

/// Width/height byte of a directory entry: 0 stands for 256 pixels.
pub open spec fn size_byte(size: u32) -> u8 {
    if size == 256 { 0 } else { (size % 256) as u8 }
}

/// Total payload length of `images`.
pub open spec fn payload_len(images: Seq<(u32, Vec<u8>)>) -> nat
    decreases images.len(),
{
    if images.len() == 0 { 0 } else { payload_len(images.drop_last()) + images.last().1@.len() }
}

/// The directory entries of `images`, the first payload at `offset`:
/// width, height, no palette, reserved, 1 plane, 32 bits per pixel, the
/// payload size and its offset.
pub open spec fn ico_entries(images: Seq<(u32, Vec<u8>)>, offset: nat) -> Seq<u8>
    decreases images.len(),
{
    if images.len() == 0 {
        Seq::empty()
    } else {
        let prev = images.drop_last();
        let (size, data) = images.last();
        ico_entries(prev, offset)
            + seq![size_byte(size), size_byte(size), 0u8, 0u8]
            + le16(1) + le16(32)
            + le32(data@.len()) + le32(offset + payload_len(prev))
    }
}

/// The payloads of `images`, one after the other.
pub open spec fn ico_payloads(images: Seq<(u32, Vec<u8>)>) -> Seq<u8>
    decreases images.len(),
{
    if images.len() == 0 { Seq::empty() } else { ico_payloads(images.drop_last()) + images.last().1@ }
}

/// An icon file holding `images` (size in pixels, payload): the header
/// (reserved, type 1, count), the directory, then the payloads.
pub open spec fn ico_file(images: Seq<(u32, Vec<u8>)>) -> Seq<u8> {
    le16(0) + le16(1) + le16(images.len()) + ico_entries(images, 6 + 16 * images.len())
        + ico_payloads(images)
}

proof fn lemma_payload_len_prefix(images: Seq<(u32, Vec<u8>)>, i: int)
    requires
        0 <= i <= images.len(),
    ensures
        payload_len(images.take(i)) <= payload_len(images),
    decreases images.len() - i,
{
    if i < images.len() {
        lemma_payload_len_prefix(images, i + 1);
        assert(images.take(i + 1).drop_last() =~= images.take(i));
    } else {
        assert(images.take(i) =~= images);
    }
}

/// The icon file for `images`; the directory lists them in order.
pub fn build_ico(images: &[(u32, Vec<u8>)]) -> (out: Vec<u8>)
    requires
        images@.len() <= u16::MAX,
        6 + 16 * images@.len() + payload_len(images@) <= u32::MAX,
    ensures
        out@ == ico_file(images@),
{
    let n = images.len();
    let mut out: Vec<u8> = Vec::new();
    push16(&mut out, 0);
    push16(&mut out, 1);
    push16(&mut out, n as u16);
    let header_len: u32 = 6 + 16 * (n as u32);
    let ghost head = out@;
    let mut offset: u32 = header_len;
    let mut i: usize = 0;
    while i < n
        invariant
            n == images@.len(),
            n <= u16::MAX,
            header_len == 6 + 16 * n,
            6 + 16 * n + payload_len(images@) <= u32::MAX,
            i <= n,
            offset == header_len + payload_len(images@.take(i as int)),
            out@ == head + ico_entries(images@.take(i as int), header_len as nat),
        decreases n - i,
    {
        let size = images[i].0;
        let len = images[i].1.len();
        let ghost t = images@.take(i + 1);
        assert(t.drop_last() =~= images@.take(i as int));
        assert(t.last() == images@[i as int]);
        proof {
            lemma_payload_len_prefix(images@, i + 1);
        }
        let enc: u8 = if size == 256 { 0 } else { (size % 256) as u8 };
        let ghost before = out@;
        out.push(enc);
        out.push(enc);
        out.push(0);
        out.push(0);
        push16(&mut out, 1);
        push16(&mut out, 32);
        push32(&mut out, len as u32);
        push32(&mut out, offset);
        assert(out@ =~= before + seq![enc, enc, 0u8, 0u8] + le16(1) + le16(32) + le32(len as nat) + le32(offset as nat));
        offset = offset + len as u32;
        i = i + 1;
    }
    assert(images@.take(n as int) =~= images@);
    let ghost mid = out@;
    let mut j: usize = 0;
    while j < n
        invariant
            n == images@.len(),
            j <= n,
            out@ == mid + ico_payloads(images@.take(j as int)),
        decreases n - j,
    {
        push_all(&mut out, images[j].1.as_slice());
        j = j + 1;
        assert(images@.take(j as int).drop_last() =~= images@.take(j - 1));
        assert(out@ =~= mid + ico_payloads(images@.take(j as int)));
    }
    assert(images@.take(n as int) =~= images@);
    out
}

// ---------------------------------------------------------------------------
// Reading an icon file
// ---------------------------------------------------------------------------

/// Pixel extent of a directory size byte (0 stands for 256).
pub open spec fn extent(b: u8) -> nat {
    if b == 0 { 256 } else { b as nat }
}

/// Area of directory entry `i`.
pub open spec fn entry_area(d: Seq<u8>, i: nat) -> nat {
    extent(d[6 + 16 * i as int]) * extent(d[6 + 16 * i as int + 1])
}

/// Number of complete directory entries among the first `count`.
pub open spec fn entries_present(d: Seq<u8>, count: nat) -> nat {
    let fit = if d.len() >= 6 { ((d.len() - 6) / 16) as nat } else { 0 };
    if count < fit { count } else { fit }
}

/// The entry picked among the first `n`: the largest area, the last one
/// among equals.
pub open spec fn best_entry(d: Seq<u8>, n: nat) -> Option<nat>
    decreases n,
{
    if n == 0 {
        None
    } else {
        match best_entry(d, (n - 1) as nat) {
            None => Some((n - 1) as nat),
            Some(b) => if entry_area(d, (n - 1) as nat) >= entry_area(d, b) { Some((n - 1) as nat) } else { Some(b) },
        }
    }
}

/// The image data (offset, length) of the largest image in icon file `d`:
/// `None` for a file shorter than a header and one entry, not of icon
/// type, without entries, or whose chosen image lies outside the file.
pub open spec fn icon_image(d: Seq<u8>) -> Option<(nat, nat)> {
    if d.len() < 22 || read16(d, 2) != 1 || read16(d, 4) == 0 {
        None
    } else {
        match best_entry(d, entries_present(d, read16(d, 4))) {
            None => None,
            Some(b) => {
                let e: int = 6 + 16 * (b as int);
                let size = read32(d, e + 8);
                let offset = read32(d, e + 12);
                if offset + size > d.len() { None } else { Some((offset, size)) }
            },
        }
    }
}

fn area_at(data: &[u8], i: usize) -> (a: u32)
    requires
        6 + 16 * i + 16 <= data@.len(),
    ensures
        a == entry_area(data@, i as nat),
{
    let len = data.len();
    assert(6 + 16 * i + 16 <= len);
    let w = data[6 + 16 * i];
    let h = data[6 + 16 * i + 1];
    let wp: u32 = if w == 0 { 256 } else { w as u32 };
    let hp: u32 = if h == 0 { 256 } else { h as u32 };
    assert(wp * hp <= 65536) by (nonlinear_arith)
        requires wp <= 256, hp <= 256;
    wp * hp
}

fn read32_at(data: &[u8], i: usize) -> (v: u32)
    requires
        i + 4 <= data@.len(),
    ensures
        v == read32(data@, i as int),
{
    let len = data.len();
    assert(i + 4 <= len);
    data[i] as u32 + 0x100 * (data[i + 1] as u32) + 0x1_0000 * (data[i + 2] as u32) + 0x100_0000 * (data[i + 3] as u32)
}

/// Where the largest image of an icon file lies (see [`icon_image`]).
pub fn select_icon_image(data: &[u8]) -> (r: Option<(usize, usize)>)
    ensures
        match (r, icon_image(data@)) {
            (Some((o, s)), Some((so, ss))) => o == so && s == ss,
            (None, None) => true,
            _ => false,
        },
{
    if data.len() < 22 {
        return None;
    }
    let icon_type: u16 = data[2] as u16 + 256 * (data[3] as u16);
    let count: u16 = data[4] as u16 + 256 * (data[5] as u16);
    if icon_type != 1 || count == 0 {
        return None;
    }
    let fit = (data.len() - 6) / 16;
    let n: usize = if (count as usize) < fit { count as usize } else { fit };
    assert(n == entries_present(data@, read16(data@, 4)));
    let mut best: Option<usize> = None;
    let mut best_area: u32 = 0;
    let mut i: usize = 0;
    while i < n
        invariant
            n <= fit,
            fit == (data@.len() - 6) / 16,
            data@.len() >= 22,
            i <= n,
            match best {
                Some(b) => best_entry(data@, i as nat) == Some(b as nat) && best_area == entry_area(data@, b as nat) && b < i,
                None => best_entry(data@, i as nat) is None && i == 0,
            },
        decreases n - i,
    {
        assert(6 + 16 * i + 16 <= data@.len());
        let area = area_at(data, i);
        match best {
            None => {
                best = Some(i);
                best_area = area;
            },
            Some(_) => {
                if area >= best_area {
                    best = Some(i);
                    best_area = area;
                }
            },
        }
        i = i + 1;
    }
    match best {
        None => None,
        Some(b) => {
            assert(6 + 16 * b + 16 <= data@.len());
            let e = 6 + 16 * b;
            let size = read32_at(data, e + 8);
            let offset = read32_at(data, e + 12);
            if offset as usize > data.len() || size as usize > data.len() - offset as usize {
                None
            } else {
                Some((offset as usize, size as usize))
            }
        },
    }
}

// ---------------------------------------------------------------------------
// 32-bit DIB payloads
// ---------------------------------------------------------------------------

/// A colour channel with the alpha premultiplication undone (0 when fully
/// transparent), cut to a byte.
pub open spec fn unpremultiply(c: u8, a: u8) -> u8 {
    if a == 0 { 0 } else { (((c as int) * 255 / (a as int)) % 256) as u8 }
}

/// The B, G, R, A bytes of the premultiplied RGBA pixel at byte `idx`.
pub open spec fn bgra(px: Seq<u8>, idx: int) -> Seq<u8> {
    let a = px[idx + 3];
    seq![unpremultiply(px[idx + 2], a), unpremultiply(px[idx + 1], a), unpremultiply(px[idx], a), a]
}

/// The first `n` pixels of source row `y` (image `w` pixels wide), as BGRA.
pub open spec fn dib_row(px: Seq<u8>, w: nat, y: nat, n: nat) -> Seq<u8>
    decreases n,
{
    if n == 0 { Seq::empty() } else { dib_row(px, w, y, (n - 1) as nat) + bgra(px, ((y * w + n - 1) * 4) as int) }
}

/// The first `n` rows of the bitmap, bottom-up: output row `r` is source
/// row `h - 1 - r`.
pub open spec fn dib_rows(px: Seq<u8>, w: nat, h: nat, n: nat) -> Seq<u8>
    decreases n,
{
    if n == 0 { Seq::empty() } else { dib_rows(px, w, h, (n - 1) as nat) + dib_row(px, w, (h - n) as nat, w) }
}

/// Bytes per row of the AND mask: one bit per pixel, padded to 4 bytes.
pub open spec fn mask_row_len(w: nat) -> nat {
    ((w + 7) / 8 + 3) / 4 * 4
}

/// The BITMAPINFOHEADER of a `w` × `h` 32-bit image with its AND mask
/// (height doubled), uncompressed.
pub open spec fn dib_header(w: nat, h: nat) -> Seq<u8> {
    le32(40) + le32(w) + le32(2 * h) + le16(1) + le16(32)
        + le32(0) + le32(0) + le32(0) + le32(0) + le32(0) + le32(0)
}

/// The icon payload of a `w` × `h` image of premultiplied RGBA pixels `px`:
/// the header, the BGRA rows bottom-up with alpha unpremultiplied, and an
/// all-zero AND mask (transparency is in the alpha channel).
pub open spec fn dib_entry(px: Seq<u8>, w: nat, h: nat) -> Seq<u8> {
    dib_header(w, h) + dib_rows(px, w, h, h) + Seq::new(h * mask_row_len(w), |_i: int| 0u8)
}

fn unpremultiplied(c: u8, a: u8) -> (r: u8)
    ensures
        r == unpremultiply(c, a),
{
    if a == 0 {
        0
    } else {
        let v: u32 = (c as u32) * 255 / (a as u32);
        (v % 256) as u8
    }
}

/// Encodes premultiplied RGBA pixels as an icon's 32-bit DIB payload.
pub fn build_dib_entry(w: u32, h: u32, pixels: &[u8]) -> (out: Vec<u8>)
    requires
        pixels@.len() == w * h * 4,
        h < 0x4000_0000,
    ensures
        out@ == dib_entry(pixels@, w as nat, h as nat),
{
    let mut out: Vec<u8> = Vec::new();
    push32(&mut out, 40);
    push32(&mut out, w);
    push32(&mut out, 2 * h);
    push16(&mut out, 1);
    push16(&mut out, 32);
    push32(&mut out, 0);
    push32(&mut out, 0);
    push32(&mut out, 0);
    push32(&mut out, 0);
    push32(&mut out, 0);
    push32(&mut out, 0);
    assert(out@ =~= dib_header(w as nat, h as nat));
    let ghost head = out@;
    let len = pixels.len();
    let wu = w as usize;
    let hu = h as usize;
    let mut r: usize = 0;
    while r < hu
        invariant
            len == pixels@.len(),
            len == w * h * 4,
            wu == w,
            hu == h,
            r <= hu,
            out@ == head + dib_rows(pixels@, w as nat, h as nat, r as nat),
        decreases hu - r,
    {
        let y = hu - 1 - r;
        let ghost row_start = out@;
        let mut x: usize = 0;
        while x < wu
            invariant
                len == pixels@.len(),
                len == w * h * 4,
                wu == w,
                hu == h,
                y < hu,
                x <= wu,
                out@ == row_start + dib_row(pixels@, w as nat, y as nat, x as nat),
            decreases wu - x,
        {
            assert((y * wu + x) * 4 + 3 < len) by (nonlinear_arith)
                requires y < hu, x < wu, len == wu * hu * 4;
            let idx = (y * wu + x) * 4;
            let a = pixels[idx + 3];
            let rr = unpremultiplied(pixels[idx], a);
            let gg = unpremultiplied(pixels[idx + 1], a);
            let bb = unpremultiplied(pixels[idx + 2], a);
            let ghost before = out@;
            out.push(bb);
            out.push(gg);
            out.push(rr);
            out.push(a);
            x = x + 1;
            assert(out@ =~= before + bgra(pixels@, idx as int));
            assert(((y * w + x - 1) * 4) as int == idx as int);
        }
        r = r + 1;
        assert(y == h - r);
    }
    let mask_row64: u64 = ((w as u64 + 7) / 8 + 3) / 4 * 4;
    assert(mask_row64 < 0x4000_0000);
    let mask_row: usize = mask_row64 as usize;
    assert(mask_row == mask_row_len(w as nat));
    let ghost xor_end = out@;
    let mut k: usize = 0;
    while k < hu
        invariant
            hu == h,
            mask_row == mask_row_len(w as nat),
            k <= hu,
            out@ == xor_end + Seq::new((k * mask_row) as nat, |_i: int| 0u8),
        decreases hu - k,
    {
        let ghost before = out@;
        let mut b: usize = 0;
        while b < mask_row
            invariant
                b <= mask_row,
                out@ == before + Seq::new(b as nat, |_i: int| 0u8),
            decreases mask_row - b,
        {
            out.push(0);
            b = b + 1;
            assert(out@ =~= before + Seq::new(b as nat, |_i: int| 0u8));
        }
        k = k + 1;
        assert(k * mask_row == (k - 1) * mask_row + mask_row) by (nonlinear_arith);
        assert(out@ =~= xor_end + Seq::new((k * mask_row) as nat, |_i: int| 0u8));
    }
    out
}

} // verus!
