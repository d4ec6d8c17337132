use vstd::prelude::*;

verus! {

/// Why a frame could not be taken from a byte stream. Each is fatal to the
/// connection: nothing can resynchronise the stream afterwards.
#[derive(Clone, Copy, Debug, PartialEq, Eq, Structural)]
pub enum FrameError {
    /// The stream ended before a header line was complete.
    MissingHeader,
    /// The header line is not a decimal length that fits a `usize`.
    BadLength,
    /// Fewer payload bytes are available than the header declares.
    Truncated,
}

/// Line feed, which ends a header line.
pub const LF: u8 = 10;

/// Carriage return, which may stand before the line feed.
pub const CR: u8 = 13;

pub open spec fn is_digit(b: u8) -> bool {
    48 <= b <= 57
}

pub open spec fn all_digits(s: Seq<u8>) -> bool {
    forall|i: int| 0 <= i < s.len() ==> is_digit(#[trigger] s[i])
}

/// The number that a string of decimal digits denotes.
pub open spec fn digits_value(s: Seq<u8>) -> nat
    decreases s.len(),
{
    if s.len() == 0 {
        0
    } else {
        digits_value(s.drop_last()) * 10 + (s.last() - 48) as nat
    }
}

/// The decimal digits of `n`, most significant first, without leading zeros.
pub open spec fn decimal(n: nat) -> Seq<u8>
    decreases n,
{
    if n < 10 {
        seq![(48 + n) as u8]
    } else {
        decimal(n / 10).push((48 + n % 10) as u8)
    }
}

/// The header line that announces a payload of `n` bytes.
pub open spec fn header_of(n: nat) -> Seq<u8> {
    decimal(n) + seq![CR, LF]
}

/// A whole frame: the header line, then the payload.
pub open spec fn frame_of(payload: Seq<u8>) -> Seq<u8> {
    header_of(payload.len()) + payload
}

/// A header line without its line feed and without one carriage return
/// before it.
pub open spec fn header_body(line: Seq<u8>) -> Seq<u8> {
    let l = line.drop_last();
    if l.len() > 0 && l.last() == CR {
        l.drop_last()
    } else {
        l
    }
}

/// What a header line, read up to and including its line feed, declares.
pub open spec fn header_result(line: Seq<u8>) -> Result<usize, FrameError> {
    if line.len() == 0 || line.last() != LF {
        Err(FrameError::MissingHeader)
    } else {
        let body = header_body(line);
        if body.len() > 0 && all_digits(body) && digits_value(body) <= usize::MAX {
            Ok(digits_value(body) as usize)
        } else {
            Err(FrameError::BadLength)
        }
    }
}

/// The position of the first line feed in `b` at or after `i`.
pub open spec fn newline_from(b: Seq<u8>, i: nat) -> Option<nat>
    decreases b.len() - i,
{
    if i >= b.len() {
        None
    } else if b[i as int] == LF {
        Some(i)
    } else {
        newline_from(b, i + 1)
    }
}

/// The payload of the frame at the start of `b` and the number of bytes
/// that the frame takes.
pub open spec fn frame_result(b: Seq<u8>) -> Result<(Seq<u8>, nat), FrameError> {
    match newline_from(b, 0) {
        None => Err(FrameError::MissingHeader),
        Some(j) => match header_result(b.take(j as int + 1)) {
            Err(e) => Err(e),
            Ok(n) => if b.len() < j + 1 + n {
                Err(FrameError::Truncated)
            } else {
                Ok((b.subrange(j as int + 1, j as int + 1 + n as int), j + 1 + n as nat))
            },
        },
    }
}

fn push_decimal(out: &mut Vec<u8>, n: usize)
    ensures
        final(out)@ == old(out)@ + decimal(n as nat),
    decreases n,
{
    if n < 10 {
        out.push((48 + n) as u8);
        assert(final(out)@ =~= old(out)@ + decimal(n as nat));
    } else {
        push_decimal(out, n / 10);
        out.push((48 + n % 10) as u8);
        assert(final(out)@ =~= old(out)@ + decimal(n as nat));
    }
}

proof fn lemma_decimal(n: nat)
    ensures
        decimal(n).len() >= 1,
        all_digits(decimal(n)),
        digits_value(decimal(n)) == n,
    decreases n,
{
    if n >= 10 {
        lemma_decimal(n / 10);
        let d = decimal(n);
        assert(d.drop_last() =~= decimal(n / 10));
        assert(d.last() == (48 + n % 10) as u8);
        assert((n / 10) * 10 + n % 10 == n);
        assert((d.last() - 48) as nat == n % 10);
        assert(digits_value(d) == digits_value(d.drop_last()) * 10 + (d.last() - 48) as nat);
        assert(all_digits(d)) by {
            assert forall|i: int| 0 <= i < d.len() implies is_digit(#[trigger] d[i]) by {
                if i < d.len() - 1 {
                    assert(d[i] == decimal(n / 10)[i]);
                }
            }
        }
    } else {
        let d = decimal(n);
        assert(d.drop_last() =~= Seq::<u8>::empty());
        assert((d.last() - 48) as nat == n);
        assert(digits_value(d) == digits_value(d.drop_last()) * 10 + (d.last() - 48) as nat);
    }
}

proof fn lemma_newline_at(b: Seq<u8>, i: nat, m: nat)
    requires
        i <= m < b.len(),
        b[m as int] == LF,
        forall|k: int| i <= k < m ==> b[k] != LF,
    ensures
        newline_from(b, i) == Some(m),
    decreases m - i,
{
    if i < m {
        lemma_newline_at(b, i + 1, m);
    }
}

proof fn lemma_header_line(n: nat, tail: Seq<u8>)
    requires
        n <= usize::MAX,
    ensures
        newline_from(header_of(n) + tail, 0) == Some((header_of(n).len() - 1) as nat),
        (header_of(n) + tail).take(header_of(n).len() as int) == header_of(n),
        header_result(header_of(n)) == Ok::<usize, FrameError>(n as usize),
{
    let h = header_of(n);
    let b = h + tail;
    lemma_decimal(n);
    let m = (h.len() - 1) as nat;
    assert forall|k: int| 0 <= k < m implies b[k] != LF by {
        assert(b[k] == h[k]);
        if k < decimal(n).len() {
            assert(is_digit(decimal(n)[k]));
        }
    }
    lemma_newline_at(b, 0, m);
    assert(b.take(h.len() as int) =~= h);
    assert(header_body(h) =~= decimal(n));
}

/// Law: the frame taken from the start of `frame_of(payload)`, whatever
/// follows it, is `payload`, and it takes exactly the bytes of that frame.
pub proof fn lemma_frame_round_trip(payload: Seq<u8>, rest: Seq<u8>)
    requires
        payload.len() <= usize::MAX,
    ensures
        frame_result(frame_of(payload) + rest) == Ok::<(Seq<u8>, nat), FrameError>(
            (payload, frame_of(payload).len()),
        ),
{
    let h = header_of(payload.len());
    let b = frame_of(payload) + rest;
    assert(b =~= h + (payload + rest));
    lemma_header_line(payload.len(), payload + rest);
    assert(b.subrange(h.len() as int, h.len() + payload.len() as int) =~= payload);
}

/// Law: a frame cut short anywhere inside its payload is refused as
/// truncated, never taken as a shorter payload.
pub proof fn lemma_truncated_frame(payload: Seq<u8>, kept: nat)
    requires
        payload.len() <= usize::MAX,
        kept < payload.len(),
    ensures
        frame_result(frame_of(payload).take(header_of(payload.len()).len() + kept as int)) == Err::<
            (Seq<u8>, nat),
            FrameError,
        >(FrameError::Truncated),
{
    let h = header_of(payload.len());
    let cut = frame_of(payload).take(h.len() + kept as int);
    assert(cut =~= h + payload.take(kept as int));
    lemma_header_line(payload.len(), payload.take(kept as int));
}

/// The header line that announces a payload of `n` bytes: its decimal
/// length, then a carriage return and a line feed.
pub fn length_header(n: usize) -> (r: Vec<u8>)
    ensures
        r@ == header_of(n as nat),
{
    let mut r: Vec<u8> = Vec::new();
    push_decimal(&mut r, n);
    r.push(CR);
    r.push(LF);
    assert(r@ =~= header_of(n as nat));
    r
}

/// The frame that carries `payload`: its header line, then the payload.
pub fn frame(payload: &Vec<u8>) -> (r: Vec<u8>)
    ensures
        r@ == frame_of(payload@),
{
    let mut r = length_header(payload.len());
    let mut i: usize = 0;
    let ghost h = r@;
    while i < payload.len()
        invariant
            i <= payload@.len(),
            r@ == h + payload@.take(i as int),
        decreases payload@.len() - i,
    {
        r.push(payload[i]);
        assert(payload@.take(i as int).push(payload@[i as int]) =~= payload@.take((i + 1) as int));
        i = i + 1;
    }
    assert(payload@.take(payload@.len() as int) =~= payload@);
    r
}

proof fn lemma_value_of_prefix(s: Seq<u8>, k: int)
    requires
        all_digits(s),
        0 <= k <= s.len(),
    ensures
        digits_value(s.take(k)) <= digits_value(s),
    decreases s.len() - k,
{
    if k < s.len() {
        lemma_value_of_prefix(s, k + 1);
        assert(s.take(k + 1).drop_last() =~= s.take(k));
        assert(is_digit(s.take(k + 1).last()));
    } else {
        assert(s.take(k) =~= s);
    }
}

/// The length that a header line declares. `line` is read up to and
/// including its line feed; a carriage return may stand before it.
pub fn parse_length(line: &[u8]) -> (r: Result<usize, FrameError>)
    ensures
        r == header_result(line@),
{
    let n = line.len();
    if n == 0 || line[n - 1] != LF {
        return Err(FrameError::MissingHeader);
    }
    let mut end: usize = n - 1;
    if end > 0 && line[end - 1] == CR {
        end = end - 1;
    }
    let ghost body = line@.take(end as int);
    assert(line@.last() == LF);
    assert(header_body(line@) =~= body);
    assert(header_result(line@) == (if body.len() > 0 && all_digits(body) && digits_value(body)
        <= usize::MAX {
        Ok::<usize, FrameError>(digits_value(body) as usize)
    } else {
        Err(FrameError::BadLength)
    }));
    if end == 0 {
        return Err(FrameError::BadLength);
    }
    let mut v: usize = 0;
    let mut i: usize = 0;
    assert(body.take(0) =~= Seq::<u8>::empty());
    while i < end
        invariant
            i <= end,
            end < line@.len(),
            body == line@.take(end as int),
            header_body(line@) == body,
            line@.len() > 0 && line@.last() == LF,
            all_digits(body.take(i as int)),
            v == digits_value(body.take(i as int)),
        decreases end - i,
    {
        let b = line[i];
        assert(b == body[i as int]);
        if b < 48 || b > 57 {
            assert(!all_digits(body));
            return Err(FrameError::BadLength);
        }
        let d: usize = (b - 48) as usize;
        assert(body.take(i as int + 1).drop_last() =~= body.take(i as int));
        assert(digits_value(body.take(i as int + 1)) == v * 10 + d);
        if v > (usize::MAX - d) / 10 {
            assert(v * 10 + d > usize::MAX) by (nonlinear_arith)
                requires
                    v > (usize::MAX - d) / 10,
                    d <= 9,
            ;
            proof {
                if all_digits(body) {
                    lemma_value_of_prefix(body, i as int + 1);
                }
            }
            return Err(FrameError::BadLength);
        }
        assert(v * 10 + d <= usize::MAX) by (nonlinear_arith)
            requires
                v <= (usize::MAX - d) / 10,
                d <= 9,
        ;
        v = v * 10 + d;
        i = i + 1;
        assert(all_digits(body.take(i as int))) by {
            assert forall|k: int| 0 <= k < i implies is_digit(#[trigger] body.take(i as int)[k]) by {
                if k < i - 1 {
                    assert(body.take(i as int)[k] == body.take(i - 1)[k]);
                }
            }
        }
    }
    assert(body.take(end as int) =~= body);
    Ok(v)
}

/// Takes the frame at the start of `bytes`: its payload and the number of
/// bytes that the whole frame takes.
pub fn split_frame(bytes: &[u8]) -> (r: Result<(Vec<u8>, usize), FrameError>)
    ensures
        match frame_result(bytes@) {
            Err(e) => r == Err::<(Vec<u8>, usize), FrameError>(e),
            Ok((p, used)) => r matches Ok((v, u)) && v@ == p && u == used,
        },
{
    let mut j: usize = 0;
    while j < bytes.len() && bytes[j] != LF
        invariant
            j <= bytes@.len(),
            newline_from(bytes@, j as nat) == newline_from(bytes@, 0),
        decreases bytes@.len() - j,
    {
        j = j + 1;
    }
    if j == bytes.len() {
        return Err(FrameError::MissingHeader);
    }
    let mut line: Vec<u8> = Vec::new();
    let mut k: usize = 0;
    while k <= j
        invariant
            j < bytes@.len(),
            k <= j + 1,
            line@ == bytes@.take(k as int),
        decreases j + 1 - k,
    {
        line.push(bytes[k]);
        assert(bytes@.take(k as int).push(bytes@[k as int]) =~= bytes@.take(k as int + 1));
        k = k + 1;
    }
    let n = match parse_length(line.as_slice()) {
        Err(e) => {
            return Err(e);
        },
        Ok(n) => n,
    };
    let start = j + 1;
    if bytes.len() - start < n {
        return Err(FrameError::Truncated);
    }
    let mut payload: Vec<u8> = Vec::new();
    let mut i: usize = 0;
    while i < n
        invariant
            start + n <= bytes@.len(),
            bytes@.len() == bytes.len(),
            i <= n,
            payload@ == bytes@.subrange(start as int, start + i),
        decreases n - i,
    {
        payload.push(bytes[start + i]);
        assert(bytes@.subrange(start as int, start + i).push(bytes@[start + i]) =~= bytes@.subrange(
            start as int,
            start + i + 1,
        ));
        i = i + 1;
    }
    Ok((payload, start + n))
}

} // verus!
