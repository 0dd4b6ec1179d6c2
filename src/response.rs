//! Response lines: finding the end of a line, splitting it into fields, and
//! classifying it by its status code.

use vstd::prelude::*;
use vstd::slice::slice_subrange;
use vstd::utf8::{
    decode_first_scalar, decode_utf8, leading_bits_width_1, pop_first_scalar, valid_first_scalar,
    valid_utf8,
};
use crate::error_codes::{code_message, error_text, ResponseCodes, RobotError, TcsError};
use crate::text::{decimal, decimal_string, i32_value, lemma_decimal_i32_value, parse_i32};

verus! {

/// Relies on `String::from_utf8`: it succeeds exactly on valid UTF-8, and then
/// holds the characters that the bytes encode.
#[verifier::external_body]
fn string_from_utf8(bytes: Vec<u8>) -> (r: Option<String>)
    ensures
        r is Some <==> valid_utf8(bytes@),
        r is Some ==> r->Some_0@ == decode_utf8(bytes@),
{
    String::from_utf8(bytes).ok()
}

/// Whether a response line ends at `p` in `buf`: a carriage return there,
/// followed by a line feed.
pub open spec fn terminator_at(buf: Seq<u8>, p: int) -> bool {
    0 <= p && p + 1 < buf.len() && buf[p] == 0x0d && buf[p + 1] == 0x0a
}

/// Where the first response line in `buf` ends, if it holds a whole line.
pub open spec fn first_terminator(buf: Seq<u8>) -> Option<int>
    decreases buf.len(),
{
    if buf.len() < 2 {
        None
    } else {
        match first_terminator(buf.drop_last()) {
            Some(p) => Some(p),
            None => if terminator_at(buf, buf.len() - 2) {
                Some(buf.len() - 2)
            } else {
                None
            },
        }
    }
}

proof fn lemma_first_terminator_prefix(buf: Seq<u8>, k: int, p: int)
    requires
        0 <= k <= buf.len(),
        first_terminator(buf.take(k)) == Some(p),
    ensures
        first_terminator(buf) == Some(p),
    decreases buf.len() - k,
{
    if k < buf.len() {
        let longer = buf.take(k + 1);
        assert(longer.drop_last() =~= buf.take(k));
        lemma_first_terminator_prefix(buf, k + 1, p);
    } else {
        assert(buf.take(k) =~= buf);
    }
}

proof fn lemma_first_terminator_found(buf: Seq<u8>)
    ensures
        match first_terminator(buf) {
            Some(p) => terminator_at(buf, p),
            None => true,
        },
    decreases buf.len(),
{
    if buf.len() >= 2 {
        let init = buf.drop_last();
        lemma_first_terminator_found(init);
        if let Some(p) = first_terminator(init) {
            assert(terminator_at(init, p));
            assert(init[p] == buf[p] && init[p + 1] == buf[p + 1]);
        }
    }
}

/// The first position at which a response line ends in `buf`.
pub fn find_terminator(buf: &[u8]) -> (r: Option<usize>)
    ensures
        match first_terminator(buf@) {
            Some(p) => r == Some(p as usize),
            None => r is None,
        },
{
    let n = buf.len();
    if n < 2 {
        return None;
    }
    let mut i: usize = 0;
    assert(buf@.take(1).len() < 2);
    while i + 1 < n
        invariant
            n == buf@.len(),
            n >= 2,
            i + 1 <= n,
            first_terminator(buf@.take(i as int + 1)) is None,
        decreases n - i,
    {
        let ghost longer = buf@.take(i as int + 2);
        assert(longer.drop_last() =~= buf@.take(i as int + 1));
        if buf[i] == 0x0d && buf[i + 1] == 0x0a {
            assert(terminator_at(longer, i as int));
            proof {
                lemma_first_terminator_prefix(buf@, i as int + 2, i as int);
            }
            return Some(i);
        }
        assert(!terminator_at(longer, i as int));
        i = i + 1;
    }
    assert(buf@.take(n as int) =~= buf@);
    None
}

/// The pieces of `line` between single spaces, empty pieces included, as
/// splitting on `' '` gives them.
pub open spec fn split_spaces(line: Seq<u8>) -> Seq<Seq<u8>>
    decreases line.len(),
{
    if line.len() == 0 {
        seq![seq![]]
    } else {
        let init = split_spaces(line.drop_last());
        if line.last() == 0x20 {
            init.push(seq![])
        } else {
            init.update(init.len() - 1, init.last().push(line.last()))
        }
    }
}

/// The fields of a response line: its pieces between single spaces, where an
/// empty last piece (a line that ends in a space) carries no field.
pub open spec fn line_fields(line: Seq<u8>) -> Seq<Seq<u8>> {
    let pieces = split_spaces(line);
    if pieces.last().len() == 0 {
        pieces.drop_last()
    } else {
        pieces
    }
}

/// The fields of a response line as text, where each of them is valid UTF-8.
pub open spec fn decoded_fields(line: Seq<u8>) -> Option<Seq<Seq<char>>> {
    let fields = line_fields(line);
    if forall|i: int| 0 <= i < fields.len() ==> valid_utf8(#[trigger] fields[i]) {
        Some(fields.map_values(|f: Seq<u8>| decode_utf8(f)))
    } else {
        None
    }
}

/// Splits a response line (without its terminator) into its fields.
pub fn decode(line: &[u8]) -> (r: Result<Vec<String>, TcsError>)
    ensures
        match decoded_fields(line@) {
            Some(t) => r is Ok && r->Ok_0.deep_view() == t,
            None => r == Err::<Vec<String>, TcsError>(TcsError::Protocol),
        },
{
    let mut pieces: Vec<Vec<u8>> = Vec::new();
    let mut current: Vec<u8> = Vec::new();
    let mut i: usize = 0;
    while i < line.len()
        invariant
            i <= line.len(),
            split_spaces(line@.take(i as int)) == pieces.deep_view().push(current@),
        decreases line.len() - i,
    {
        let b = line[i];
        let ghost before = pieces.deep_view();
        let ghost word = current@;
        proof {
            let longer = line@.take(i as int + 1);
            assert(longer.drop_last() =~= line@.take(i as int));
            assert(longer.last() == b);
        }
        if b == 0x20 {
            let done = current;
            assert(done.deep_view() =~= done@);
            current = Vec::new();
            pieces.push(done);
            assert(pieces.deep_view() =~= before.push(word));
            assert(split_spaces(line@.take(i as int + 1)) =~= pieces.deep_view().push(current@));
        } else {
            current.push(b);
            assert(pieces.deep_view().push(current@) =~= before.push(word).update(
                before.len() as int,
                word.push(b),
            ));
            assert(split_spaces(line@.take(i as int + 1)) =~= pieces.deep_view().push(current@));
        }
        i = i + 1;
    }
    assert(line@.take(i as int) =~= line@);
    let ghost before = pieces.deep_view();
    let ghost word = current@;
    if current.len() > 0 {
        assert(current.deep_view() =~= current@);
        pieces.push(current);
        assert(pieces.deep_view() =~= before.push(word));
    }
    let ghost fields = pieces.deep_view();
    assert(split_spaces(line@).drop_last() =~= before);
    assert(fields =~= line_fields(line@));
    let mut out: Vec<String> = Vec::new();
    let mut k: usize = 0;
    let n = pieces.len();
    while k < n
        invariant
            n == pieces.len(),
            k <= n,
            fields == pieces.deep_view(),
            fields == line_fields(line@),
            forall|j: int| 0 <= j < k ==> valid_utf8(#[trigger] fields[j]),
            out.deep_view() == fields.take(k as int).map_values(|f: Seq<u8>| decode_utf8(f)),
        decreases n - k,
    {
        let piece = pieces[k].clone();
        assert(piece@ == fields[k as int]);
        match string_from_utf8(piece) {
            Some(s) => {
                let ghost prior = out.deep_view();
                out.push(s);
                assert(out.deep_view() =~= prior.push(decode_utf8(fields[k as int])));
                assert(fields.take(k as int + 1).drop_last() =~= fields.take(k as int));
                assert(out.deep_view() =~= fields.take(k as int + 1).map_values(
                    |f: Seq<u8>| decode_utf8(f),
                ));
            },
            None => {
                assert(!valid_utf8(fields[k as int]));
                return Err(TcsError::Protocol);
            },
        }
        k = k + 1;
    }
    assert(fields.take(n as int) =~= fields);
    Ok(out)
}

/// A recognised error condition.
#[derive(Debug, PartialEq, Eq, Structural, Copy, Clone)]
pub enum Condition {
    /// Motor power must be enabled before the command can succeed.
    PowerNotEnabled,
}

/// What a response says.
#[derive(Debug, PartialEq)]
pub enum ResponseOutcome {
    /// Status 0, with the fields after the status.
    Success(Vec<String>),
    /// Status 1, with the fields after the status.
    Warning(Vec<String>),
    /// Any other status, with the condition it names where it names one.
    Error(i32, Option<Condition>),
}

/// The mathematical form of a `ResponseOutcome`.
pub enum OutcomeView {
    Success(Seq<Seq<char>>),
    Warning(Seq<Seq<char>>),
    Error(int, Option<Condition>),
}

impl View for ResponseOutcome {
    type V = OutcomeView;

    open spec fn view(&self) -> OutcomeView {
        match self {
            ResponseOutcome::Success(p) => OutcomeView::Success(p.deep_view()),
            ResponseOutcome::Warning(p) => OutcomeView::Warning(p.deep_view()),
            ResponseOutcome::Error(c, t) => OutcomeView::Error(*c as int, *t),
        }
    }
}

/// The outcome for status `code` followed by the fields `payload`.
pub open spec fn outcome_for(code: int, payload: Seq<Seq<char>>) -> OutcomeView {
    if code == 0 {
        OutcomeView::Success(payload)
    } else if code == 1 {
        OutcomeView::Warning(payload)
    } else if code == -1046 {
        OutcomeView::Error(code, Some(Condition::PowerNotEnabled))
    } else {
        OutcomeView::Error(code, None)
    }
}

/// The outcome that the fields of a response give, where the first of them is
/// a status code.
pub open spec fn classification(fields: Seq<Seq<char>>) -> Option<OutcomeView> {
    if fields.len() == 0 {
        None
    } else {
        match i32_value(fields[0]) {
            Some(code) => Some(outcome_for(code as int, fields.drop_first())),
            None => None,
        }
    }
}

/// Every status code gives exactly one kind of outcome: a response whose
/// status field is the code's decimal text classifies as `outcome_for` that
/// code and the fields after it; success and warning keep those fields as
/// they are and in their order; every other code is an error that carries the
/// code; and -1046 names the power-not-enabled condition whatever follows it.
pub proof fn lemma_classification_total(code: i32, payload: Seq<Seq<char>>)
    ensures
        classification(seq![decimal(code as int)] + payload) == Some(
            outcome_for(code as int, payload),
        ),
        match outcome_for(code as int, payload) {
            OutcomeView::Success(p) => code == 0 && p == payload,
            OutcomeView::Warning(p) => code == 1 && p == payload,
            OutcomeView::Error(c, t) => code != 0 && code != 1 && c == code && (t == Some(
                Condition::PowerNotEnabled,
            ) <==> code == -1046) && (t is None <==> code != -1046),
        },
        code == -1046 ==> outcome_for(code as int, payload) == OutcomeView::Error(
            -1046,
            Some(Condition::PowerNotEnabled),
        ),
{
    lemma_decimal_i32_value(code);
    let fields = seq![decimal(code as int)] + payload;
    assert(fields[0] == decimal(code as int));
    assert(fields.drop_first() =~= payload);
}

/// Classifies the fields of a response by their status code.
pub fn classify(fields: &Vec<String>) -> (r: Result<ResponseOutcome, TcsError>)
    ensures
        match classification(fields.deep_view()) {
            Some(o) => r is Ok && r->Ok_0@ == o,
            None => r == Err::<ResponseOutcome, TcsError>(TcsError::Protocol),
        },
{
    if fields.len() == 0 {
        return Err(TcsError::Protocol);
    }
    let code = match parse_i32(fields[0].as_str()) {
        Some(c) => c,
        None => {
            return Err(TcsError::Protocol);
        },
    };
    let ghost all = fields.deep_view();
    if code == 0 || code == 1 {
        let mut payload: Vec<String> = Vec::new();
        let mut i: usize = 1;
        while i < fields.len()
            invariant
                1 <= i <= fields.len(),
                all == fields.deep_view(),
                payload.deep_view() == all.subrange(1, i as int),
            decreases fields.len() - i,
        {
            let ghost prior = payload.deep_view();
            payload.push(fields[i].clone());
            assert(payload.deep_view() =~= prior.push(all[i as int]));
            assert(all.subrange(1, i as int + 1) =~= all.subrange(1, i as int).push(all[i as int]));
            i = i + 1;
        }
        assert(all.subrange(1, i as int) =~= all.drop_first());
        if code == 0 {
            Ok(ResponseOutcome::Success(payload))
        } else {
            Ok(ResponseOutcome::Warning(payload))
        }
    } else if code == -1046 {
        Ok(ResponseOutcome::Error(code, Some(Condition::PowerNotEnabled)))
    } else {
        Ok(ResponseOutcome::Error(code, None))
    }
}

/// What a response line (without its terminator) says: a protocol error
/// where its fields are not text or do not start with a status code.
pub open spec fn reply_of(line: Seq<u8>) -> Result<OutcomeView, TcsError> {
    match decoded_fields(line) {
        Some(fields) => match classification(fields) {
            Some(o) => Ok(o),
            None => Err(TcsError::Protocol),
        },
        None => Err(TcsError::Protocol),
    }
}

/// The mathematical form of a result that carries an outcome.
pub open spec fn result_view(r: Result<ResponseOutcome, TcsError>) -> Result<OutcomeView, TcsError> {
    match r {
        Ok(o) => Ok(o@),
        Err(e) => Err(e),
    }
}

/// Reads the first response line in `buf`: nothing while `buf` holds no whole
/// line, else what that line says. Bytes after its terminator are not read.
pub fn read_reply(buf: &[u8]) -> (r: Option<Result<ResponseOutcome, TcsError>>)
    ensures
        match first_terminator(buf@) {
            Some(p) => r is Some && result_view(r->Some_0) == reply_of(buf@.take(p)),
            None => r is None,
        },
{
    match find_terminator(buf) {
        None => None,
        Some(p) => {
            proof {
                lemma_first_terminator_found(buf@);
            }
            assert(buf@.len() == buf.len());
            let line = slice_subrange(buf, 0, p);
            assert(line@ =~= buf@.take(p as int));
            match decode(line) {
                Ok(fields) => Some(classify(&fields)),
                Err(e) => Some(Err(e)),
            }
        },
    }
}

/// The fields, each preceded by a single space, as bytes.
pub open spec fn spaced_bytes(fields: Seq<Seq<u8>>) -> Seq<u8>
    decreases fields.len(),
{
    if fields.len() == 0 {
        seq![]
    } else {
        spaced_bytes(fields.drop_last()) + seq![0x20u8] + fields.last()
    }
}

/// Whether `f` can travel as one field of a response line: it is not empty,
/// is valid UTF-8, and holds neither a space nor a carriage return.
pub open spec fn is_reply_field(f: Seq<u8>) -> bool {
    &&& f.len() > 0
    &&& valid_utf8(f)
    &&& forall|i: int| 0 <= i < f.len() ==> #[trigger] f[i] != 0x20 && f[i] != 0x0d
}

proof fn lemma_split_append_piece(a: Seq<u8>, t: Seq<u8>)
    requires
        forall|i: int| 0 <= i < t.len() ==> #[trigger] t[i] != 0x20,
    ensures
        split_spaces(a + t) == split_spaces(a).update(
            split_spaces(a).len() - 1,
            split_spaces(a).last() + t,
        ),
        split_spaces(a + t).len() == split_spaces(a).len(),
    decreases t.len(),
{
    lemma_split_spaces_nonempty(a);
    if t.len() == 0 {
        assert(a + t =~= a);
        assert(split_spaces(a).last() + t =~= split_spaces(a).last());
        assert(split_spaces(a).update(split_spaces(a).len() - 1, split_spaces(a).last())
            =~= split_spaces(a));
    } else {
        let init = t.drop_last();
        assert forall|i: int| 0 <= i < init.len() implies #[trigger] init[i] != 0x20 by {
            assert(init[i] == t[i]);
        }
        lemma_split_append_piece(a, init);
        assert((a + t).drop_last() =~= a + init);
        assert((a + t).last() == t.last());
        assert(t.last() != 0x20);
        let sa = split_spaces(a);
        assert((sa.last() + init).push(t.last()) =~= sa.last() + t);
        assert(split_spaces(a + t) =~= sa.update(sa.len() - 1, sa.last() + t));
    }
}

proof fn lemma_split_spaces_nonempty(line: Seq<u8>)
    ensures
        split_spaces(line).len() >= 1,
    decreases line.len(),
{
    if line.len() > 0 {
        lemma_split_spaces_nonempty(line.drop_last());
    }
}

proof fn lemma_split_spaced(s: u8, fields: Seq<Seq<u8>>)
    requires
        s != 0x20,
        forall|i: int| 0 <= i < fields.len() ==> is_reply_field(#[trigger] fields[i]),
    ensures
        split_spaces(seq![s] + spaced_bytes(fields)) == seq![seq![s]] + fields,
    decreases fields.len(),
{
    if fields.len() == 0 {
        let e = Seq::<u8>::empty();
        lemma_split_append_piece(e, seq![s]);
        assert(e + seq![s] =~= seq![s] + spaced_bytes(fields));
        assert(split_spaces(e) =~= seq![e]);
        assert(seq![seq![s]] + fields =~= seq![e].update(0, e + seq![s]));
    } else {
        let init = fields.drop_last();
        let last = fields.last();
        assert(forall|i: int| 0 <= i < init.len() ==> init[i] == fields[i]);
        lemma_split_spaced(s, init);
        assert(is_reply_field(fields[fields.len() - 1]));
        let a = seq![s] + spaced_bytes(init) + seq![0x20u8];
        assert(a.drop_last() =~= seq![s] + spaced_bytes(init));
        assert(split_spaces(a) =~= (seq![seq![s]] + init).push(seq![]));
        lemma_split_append_piece(a, last);
        assert(seq![s] + spaced_bytes(fields) =~= a + last);
        assert(seq![] + last =~= last);
        assert(split_spaces(a + last) =~= seq![seq![s]] + fields);
    }
}

proof fn lemma_ascii_byte(b: u8)
    requires
        b < 0x80,
    ensures
        valid_utf8(seq![b]),
        decode_utf8(seq![b]) == seq![(b as u32) as char],
{
    assert((b & 0x7f) == b) by (bit_vector)
        requires
            b < 0x80,
    ;
    let s = seq![b];
    let e = Seq::<u8>::empty();
    assert(s[0] == b);
    assert(leading_bits_width_1(b) == b as u32);
    assert(decode_first_scalar(s) == b as u32);
    assert(valid_first_scalar(s));
    assert(pop_first_scalar(s) =~= e);
    assert(valid_utf8(e));
    assert(decode_utf8(e) =~= Seq::<char>::empty());
    assert(decode_utf8(s) =~= seq![(b as u32) as char] + decode_utf8(Seq::<u8>::empty()));
}

proof fn lemma_no_terminator(x: Seq<u8>)
    requires
        forall|i: int| 0 <= i < x.len() ==> #[trigger] x[i] != 0x0d,
    ensures
        first_terminator(x) is None,
    decreases x.len(),
{
    if x.len() >= 2 {
        let init = x.drop_last();
        assert(forall|i: int| 0 <= i < init.len() ==> init[i] == x[i]);
        lemma_no_terminator(init);
    }
}

proof fn lemma_spaced_bytes_no_cr(fields: Seq<Seq<u8>>)
    requires
        forall|i: int| 0 <= i < fields.len() ==> is_reply_field(#[trigger] fields[i]),
    ensures
        forall|i: int| 0 <= i < spaced_bytes(fields).len() ==> #[trigger] spaced_bytes(fields)[i] != 0x0d,
    decreases fields.len(),
{
    if fields.len() > 0 {
        let init = fields.drop_last();
        assert(forall|i: int| 0 <= i < init.len() ==> init[i] == fields[i]);
        lemma_spaced_bytes_no_cr(init);
        assert(is_reply_field(fields[fields.len() - 1]));
        let a = spaced_bytes(init);
        let last = fields.last();
        assert forall|i: int| 0 <= i < spaced_bytes(fields).len() implies #[trigger] spaced_bytes(fields)[i] != 0x0d by {
            assert(spaced_bytes(fields) =~= a + seq![0x20u8] + last);
            if i < a.len() {
                assert(spaced_bytes(fields)[i] == a[i]);
            } else if i > a.len() {
                assert(spaced_bytes(fields)[i] == last[i - a.len() - 1]);
            }
        }
    }
}

/// A success or warning line, `0` or `1` followed by fields that each hold
/// neither a space nor a carriage return, ends at its terminator and reads as
/// a success or a warning whose payload is exactly those fields, as text and
/// in their order.
pub proof fn lemma_reply_keeps_payload(status: u8, fields: Seq<Seq<u8>>)
    requires
        status == 0x30 || status == 0x31,
        forall|i: int| 0 <= i < fields.len() ==> is_reply_field(#[trigger] fields[i]),
    ensures
        ({
            let line = seq![status] + spaced_bytes(fields);
            let buf = line + seq![0x0du8, 0x0au8];
            let payload = fields.map_values(|f: Seq<u8>| decode_utf8(f));
            &&& first_terminator(buf) == Some(line.len() as int)
            &&& buf.take(line.len() as int) == line
            &&& reply_of(line) == Ok::<OutcomeView, TcsError>(
                if status == 0x30 {
                    OutcomeView::Success(payload)
                } else {
                    OutcomeView::Warning(payload)
                },
            )
        }),
{
    let line = seq![status] + spaced_bytes(fields);
    let buf = line + seq![0x0du8, 0x0au8];
    let payload = fields.map_values(|f: Seq<u8>| decode_utf8(f));
    // where the line ends
    lemma_spaced_bytes_no_cr(fields);
    assert forall|i: int| 0 <= i < line.len() implies #[trigger] line[i] != 0x0d by {
        if i > 0 {
            assert(line[i] == spaced_bytes(fields)[i - 1]);
        }
    }
    let with_cr = line + seq![0x0du8];
    assert(with_cr.drop_last() =~= line);
    lemma_no_terminator(line);
    assert(buf.drop_last() =~= with_cr);
    assert(!terminator_at(with_cr, with_cr.len() - 2));
    assert(terminator_at(buf, buf.len() - 2));
    assert(buf.take(line.len() as int) =~= line);
    // its fields
    lemma_split_spaced(status, fields);
    let pieces = seq![seq![status]] + fields;
    if fields.len() > 0 {
        assert(is_reply_field(fields[fields.len() - 1]));
        assert(pieces.last() == fields.last());
    }
    assert(line_fields(line) == pieces);
    lemma_ascii_byte(status);
    assert forall|i: int| 0 <= i < pieces.len() implies valid_utf8(#[trigger] pieces[i]) by {
        if i > 0 {
            assert(pieces[i] == fields[i - 1]);
            assert(is_reply_field(fields[i - 1]));
        }
    }
    let code: i32 = if status == 0x30 {
        0
    } else {
        1
    };
    let digit = seq![(status as u32) as char];
    assert(digit =~= decimal(code as int));
    assert(pieces.map_values(|f: Seq<u8>| decode_utf8(f)) =~= seq![digit] + payload);
    // its status
    lemma_classification_total(code, payload);
    assert(first_terminator(with_cr) is None);
    assert(decoded_fields(line) == Some(seq![digit] + payload));
}

/// The result of a request in the string-based interface: the fields of a
/// success or a warning; for an error status, the description of the
/// power-not-enabled condition or else the status code as text; for a failure,
/// its description.
pub fn robot_result(r: Result<ResponseOutcome, TcsError>) -> (out: Result<Vec<String>, RobotError>)
    ensures
        match result_view(r) {
            Ok(OutcomeView::Success(p)) => out is Ok && out->Ok_0.deep_view() == p,
            Ok(OutcomeView::Warning(p)) => out is Ok && out->Ok_0.deep_view() == p,
            Ok(OutcomeView::Error(c, Some(_))) => out is Err && out->Err_0@ == code_message(
                ResponseCodes::RobotPowerNotEnabled,
            ),
            Ok(OutcomeView::Error(c, None)) => out is Err && out->Err_0@ == decimal(c),
            Err(e) => out is Err && out->Err_0@ == error_text(e),
        },
{
    match r {
        Ok(ResponseOutcome::Success(p)) => Ok(p),
        Ok(ResponseOutcome::Warning(p)) => Ok(p),
        Ok(ResponseOutcome::Error(_, Some(Condition::PowerNotEnabled))) => Err(
            ResponseCodes::RobotPowerNotEnabled.to_string(),
        ),
        Ok(ResponseOutcome::Error(c, None)) => Err(decimal_string(c)),
        Err(e) => Err(e.to_string()),
    }
}

} // verus!
