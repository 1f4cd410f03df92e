use vstd::prelude::*;
use crate::diag::ErrorKind;

verus! {

/// One piece of a format string: literal text, or a hole filled by the
/// argument at the given position.
#[derive(Clone, PartialEq, Eq, Debug)]
pub enum Piece {
    Text(Vec<u8>),
    Argument(usize),
}

#[verifier::ext_equal]
pub enum PieceView {
    Text(Seq<u8>),
    Argument(usize),
}

pub open spec fn piece_view(p: Piece) -> PieceView {
    match p {
        Piece::Text(bytes) => PieceView::Text(bytes@),
        Piece::Argument(i) => PieceView::Argument(i),
    }
}

pub open spec fn pieces_view_n(s: Seq<Piece>, n: int) -> Seq<PieceView>
    decreases n,
{
    if n <= 0 || n > s.len() {
        Seq::empty()
    } else {
        pieces_view_n(s, n - 1).push(piece_view(s[n - 1]))
    }
}

pub open spec fn pieces_view(s: Seq<Piece>) -> Seq<PieceView> {
    pieces_view_n(s, s.len() as int)
}

pub open spec fn is_digit(b: u8) -> bool {
    48 <= b <= 57
}

/// The end of the run of literal text starting at `i`.
pub open spec fn text_run_end(s: Seq<u8>, i: int) -> int
    decreases s.len() - i,
{
    if i < 0 || i >= s.len() || s[i] == 123 {
        i
    } else {
        text_run_end(s, i + 1)
    }
}

/// The end of the run of digits starting at `i`.
pub open spec fn digit_run_end(s: Seq<u8>, i: int) -> int
    decreases s.len() - i,
{
    if i < 0 || i >= s.len() || !is_digit(s[i]) {
        i
    } else {
        digit_run_end(s, i + 1)
    }
}

/// The value of the digits in `s[from..to]`.
pub open spec fn digits_value(s: Seq<u8>, from: int, to: int) -> int
    decreases to - from,
{
    if to <= from {
        0
    } else {
        digits_value(s, from, to - 1) * 10 + (s[to - 1] - 48)
    }
}

/// The meaning of a format string from position `i` on: a run of literal
/// text up to the next `{`, or a hole (`{}` with the next automatic
/// position, `{N}` with an explicit one), and so on.  A hole that
/// references a position at or past the number of supplied arguments is
/// `InvalidFormatString`, as are a lone `{` and an explicit index of more
/// than six digits.
pub open spec fn parse_fmt_spec(s: Seq<u8>, i: int, next_arg: int, argc: int) -> Result<
    Seq<PieceView>,
    ErrorKind,
>
    decreases s.len() - i,
    via parse_fmt_spec_dec
{
    if i < 0 || i >= s.len() {
        Ok(Seq::empty())
    } else if s[i] != 123 {
        let run = text_run_end(s, i);
        match parse_fmt_spec(s, run, next_arg, argc) {
            Ok(rest) => Ok(seq![PieceView::Text(s.subrange(i, run))] + rest),
            Err(e) => Err(e),
        }
    } else if i + 1 < s.len() && s[i + 1] == 125 {
        if next_arg >= argc {
            Err(ErrorKind::InvalidFormatString)
        } else {
            match parse_fmt_spec(s, i + 2, next_arg + 1, argc) {
                Ok(rest) => Ok(seq![PieceView::Argument(next_arg as usize)] + rest),
                Err(e) => Err(e),
            }
        }
    } else if i + 1 < s.len() && is_digit(s[i + 1]) {
        let end = digit_run_end(s, i + 1);
        if end < s.len() && s[end] == 125 && end - (i + 1) <= 6 {
            let idx = digits_value(s, i + 1, end);
            if idx >= argc {
                Err(ErrorKind::InvalidFormatString)
            } else {
                match parse_fmt_spec(s, end + 1, next_arg, argc) {
                    Ok(rest) => Ok(seq![PieceView::Argument(idx as usize)] + rest),
                    Err(e) => Err(e),
                }
            }
        } else {
            Err(ErrorKind::InvalidFormatString)
        }
    } else {
        Err(ErrorKind::InvalidFormatString)
    }
}

#[via_fn]
proof fn parse_fmt_spec_dec(s: Seq<u8>, i: int, next_arg: int, argc: int) {
    if 0 <= i < s.len() {
        if s[i] != 123 {
            lemma_text_run_end(s, i);
        } else if i + 1 < s.len() && is_digit(s[i + 1]) {
            lemma_digit_run_end(s, i + 1);
        }
    }
}

proof fn lemma_text_run_end(s: Seq<u8>, i: int)
    requires
        0 <= i <= s.len(),
    ensures
        i <= text_run_end(s, i) <= s.len(),
        forall|k: int| i <= k < text_run_end(s, i) ==> s[k] != 123,
        text_run_end(s, i) < s.len() ==> s[text_run_end(s, i)] == 123,
        i < s.len() && s[i] != 123 ==> text_run_end(s, i) > i,
    decreases s.len() - i,
{
    if i < s.len() && s[i] != 123 {
        lemma_text_run_end(s, i + 1);
    }
}

proof fn lemma_digit_run_end(s: Seq<u8>, i: int)
    requires
        0 <= i <= s.len(),
    ensures
        i <= digit_run_end(s, i) <= s.len(),
        forall|k: int| i <= k < digit_run_end(s, i) ==> is_digit(s[k]),
        digit_run_end(s, i) < s.len() ==> !is_digit(s[digit_run_end(s, i)]),
        i < s.len() && is_digit(s[i]) ==> digit_run_end(s, i) > i,
    decreases s.len() - i,
{
    if i < s.len() && is_digit(s[i]) {
        lemma_digit_run_end(s, i + 1);
    }
}

proof fn lemma_digits_value_bound(s: Seq<u8>, from: int, to: int)
    requires
        forall|k: int| from <= k < to ==> is_digit(#[trigger] s[k]),
    ensures
        0 <= digits_value(s, from, to),
        to - from <= 1 ==> digits_value(s, from, to) < 10,
        to - from <= 2 ==> digits_value(s, from, to) < 100,
        to - from <= 3 ==> digits_value(s, from, to) < 1000,
        to - from <= 4 ==> digits_value(s, from, to) < 10000,
        to - from <= 5 ==> digits_value(s, from, to) < 100000,
        to - from <= 6 ==> digits_value(s, from, to) < 1000000,
    decreases to - from,
{
    if to > from {
        lemma_digits_value_bound(s, from, to - 1);
    }
}

proof fn lemma_pieces_push_last(out: Seq<Piece>)
    requires
        out.len() > 0,
    ensures
        pieces_view(out) == pieces_view(out.drop_last()).push(piece_view(out.last())),
{
    lemma_pieces_view_n(out, out.len() as int);
    lemma_pieces_view_n(out.drop_last(), out.len() - 1);
    assert(pieces_view(out) =~= pieces_view(out.drop_last()).push(piece_view(out.last())));
}

proof fn lemma_pieces_view_n(s: Seq<Piece>, n: int)
    requires
        0 <= n <= s.len(),
    ensures
        pieces_view_n(s, n).len() == n,
        forall|i: int| 0 <= i < n ==> pieces_view_n(s, n)[i] == piece_view(s[i]),
    decreases n,
{
    if n > 0 {
        lemma_pieces_view_n(s, n - 1);
    }
}

/// Splits a format string into pieces, checking every hole against the
/// number of supplied arguments.
pub fn parse_fmt(s: &Vec<u8>, argc: usize) -> (r: Result<Vec<Piece>, ErrorKind>)
    ensures
        match r {
            Ok(pieces) => parse_fmt_spec(s@, 0, 0, argc as int) == Ok::<_, ErrorKind>(
                pieces_view(pieces@),
            ),
            Err(k) => parse_fmt_spec(s@, 0, 0, argc as int) == Err::<Seq<PieceView>, _>(k),
        },
{
    let mut out: Vec<Piece> = Vec::new();
    let n = s.len();
    let mut i: usize = 0;
    let mut next_arg: usize = 0;
    while i < n
        invariant
            n == s@.len(),
            i <= n,
            next_arg <= i,
            parse_fmt_spec(s@, 0, 0, argc as int) == (match parse_fmt_spec(
                s@,
                i as int,
                next_arg as int,
                argc as int,
            ) {
                Ok(rest) => Ok::<Seq<PieceView>, ErrorKind>(pieces_view(out@) + rest),
                Err(e) => Err::<Seq<PieceView>, ErrorKind>(e),
            }),
        decreases n - i,
    {
        let ghost out0 = out@;
        let ghost i0 = i as int;
        let ghost na0 = next_arg as int;
        if s[i] != 123 {
            let mut run: Vec<u8> = Vec::new();
            let start = i;
            proof {
                lemma_text_run_end(s@, start as int);
            }
            let ghost run_end = text_run_end(s@, start as int);
            while i < n && s[i] != 123
                invariant
                    n == s@.len(),
                    start <= i <= n,
                    run_end == text_run_end(s@, start as int),
                    start <= run_end <= n,
                    i <= run_end,
                    forall|k: int| start <= k < run_end ==> s@[k] != 123,
                    run_end < n ==> s@[run_end as int] == 123,
                    run@ == s@.subrange(start as int, i as int),
                decreases n - i,
            {
                run.push(s[i]);
                proof {
                    assert(run@ =~= s@.subrange(start as int, i + 1));
                }
                i = i + 1;
            }
            proof {
                assert(i == run_end);
            }
            out.push(Piece::Text(run));
            proof {
                lemma_pieces_push_last(out@);
                assert(out@.drop_last() =~= out0);
                assert(pieces_view(out@) =~= pieces_view(out0).push(
                    PieceView::Text(s@.subrange(i0, run_end)),
                ));
                assert(seq![PieceView::Text(s@.subrange(i0, run_end))] + (match parse_fmt_spec(
                    s@,
                    run_end,
                    na0,
                    argc as int,
                ) {
                    Ok(rest) => rest,
                    Err(_) => Seq::empty(),
                }) =~= (match parse_fmt_spec(s@, run_end, na0, argc as int) {
                    Ok(rest) => seq![PieceView::Text(s@.subrange(i0, run_end))] + rest,
                    Err(_) => seq![PieceView::Text(s@.subrange(i0, run_end))] + Seq::empty(),
                }));
                match parse_fmt_spec(s@, run_end, na0, argc as int) {
                    Ok(rest) => {
                        assert(pieces_view(out@) + rest =~= pieces_view(out0) + (seq![
                            PieceView::Text(s@.subrange(i0, run_end)),
                        ] + rest));
                    },
                    Err(_) => {},
                }
            }
        } else if i + 1 < n && s[i + 1] == 125 {
            if next_arg >= argc {
                return Err(ErrorKind::InvalidFormatString);
            }
            out.push(Piece::Argument(next_arg));
            proof {
                lemma_pieces_push_last(out@);
                assert(out@.drop_last() =~= out0);
                match parse_fmt_spec(s@, i0 + 2, na0 + 1, argc as int) {
                    Ok(rest) => {
                        assert(pieces_view(out@) + rest =~= pieces_view(out0) + (seq![
                            PieceView::Argument(next_arg),
                        ] + rest));
                    },
                    Err(_) => {},
                }
            }
            i = i + 2;
            next_arg = next_arg + 1;
        } else if i + 1 < n && 48 <= s[i + 1] && s[i + 1] <= 57 {
            proof {
                lemma_digit_run_end(s@, i + 1);
            }
            let ghost dend = digit_run_end(s@, i + 1);
            let mut j: usize = i + 1;
            let mut val: usize = 0;
            while j < n && 48 <= s[j] && s[j] <= 57
                invariant
                    n == s@.len(),
                    i + 1 <= j <= n,
                    dend == digit_run_end(s@, i + 1),
                    i + 1 <= dend <= n,
                    j <= dend,
                    forall|k: int| i + 1 <= k < dend ==> is_digit(s@[k]),
                    dend < n ==> !is_digit(s@[dend as int]),
                    j - (i + 1) <= 6 ==> val == digits_value(s@, i + 1, j as int) && val
                        < 1000000,
                decreases n - j,
            {
                proof {
                    lemma_digits_value_bound(s@, i + 1, j + 1);
                }
                if j - (i + 1) < 6 {
                    val = val * 10 + ((s[j] - 48) as usize);
                }
                j = j + 1;
            }
            proof {
                assert(j == dend);
            }
            if j >= n {
                return Err(ErrorKind::InvalidFormatString);
            }
            if s[j] != 125 {
                return Err(ErrorKind::InvalidFormatString);
            }
            if j - (i + 1) > 6 {
                return Err(ErrorKind::InvalidFormatString);
            }
            if val >= argc {
                return Err(ErrorKind::InvalidFormatString);
            }
            out.push(Piece::Argument(val));
            proof {
                lemma_pieces_push_last(out@);
                assert(out@.drop_last() =~= out0);
                match parse_fmt_spec(s@, j + 1, na0, argc as int) {
                    Ok(rest) => {
                        assert(pieces_view(out@) + rest =~= pieces_view(out0) + (seq![
                            PieceView::Argument(val),
                        ] + rest));
                    },
                    Err(_) => {},
                }
            }
            i = j + 1;
        } else {
            return Err(ErrorKind::InvalidFormatString);
        }
    }
    proof {
        assert(pieces_view(out@) + Seq::<PieceView>::empty() =~= pieces_view(out@));
    }
    Ok(out)
}

} // verus!
