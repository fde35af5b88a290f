//! The wire framer: turns a raw byte stream into discrete protocol
//! lines.  A per-connection receive buffer accumulates the bytes read
//! so far; every line-feed byte completes a line, whose optional
//! trailing carriage return is dropped.  A completed line longer than
//! [`MAX_LINE`] bytes, or more than [`MAX_LINE`] unterminated buffered
//! bytes, is a framing error, and a completed line that is not valid
//! UTF-8 is an encoding error; both close the connection.  A read that
//! returns zero bytes is end of stream and is the caller's signal to
//! stop feeding, not an error.

use vstd::prelude::*;
use vstd::utf8::{decode_utf8, valid_utf8};

use crate::command::{CommandParseError, ParseErrModel};
use crate::strutil::{lemma_split_on_len, split_bytes, split_on};

verus! {

/// The largest number of bytes one line may hold, and the largest
/// number of unterminated bytes the receive buffer may accumulate.
pub const MAX_LINE: usize = 512;

/// The line-feed byte that terminates a line.
pub const LINE_FEED: u8 = 10;

/// The carriage-return byte dropped from a line's end.
pub const CARRIAGE_RETURN: u8 = 13;

/// A line's content: the bytes before the terminator, less one final
/// carriage return if present.
pub open spec fn strip_cr(s: Seq<u8>) -> Seq<u8> {
    if s.len() > 0 && s.last() == CARRIAGE_RETURN {
        s.drop_last()
    } else {
        s
    }
}

/// The mathematical shape of one feed: the decoded lines in arrival
/// order, the error that stopped framing if one did, and what stays
/// buffered.
#[verifier::ext_equal]
pub ghost struct FrameModel {
    pub lines: Seq<Seq<char>>,
    pub error: Option<ParseErrModel>,
    pub rest: Seq<u8>,
}

/// Framing over the complete segments and the unterminated remainder:
/// each segment in order becomes a line unless it is too long
/// (`LineTooLong`) or not valid text (`EncodingError`); at the first
/// offence framing stops, the earlier lines stand, and the buffer is
/// discarded.  With all segments good, a remainder over the limit is
/// `LineTooLong`, else the remainder stays buffered.
pub open spec fn spec_frame(completes: Seq<Seq<u8>>, rem: Seq<u8>) -> FrameModel
    decreases completes.len(),
{
    if completes.len() == 0 {
        if rem.len() > MAX_LINE {
            FrameModel {
                lines: Seq::<Seq<char>>::empty(),
                error: Some(ParseErrModel::LineTooLong),
                rest: Seq::<u8>::empty(),
            }
        } else {
            FrameModel { lines: Seq::<Seq<char>>::empty(), error: None, rest: rem }
        }
    } else {
        let content = strip_cr(completes[0]);
        if content.len() > MAX_LINE {
            FrameModel {
                lines: Seq::<Seq<char>>::empty(),
                error: Some(ParseErrModel::LineTooLong),
                rest: Seq::<u8>::empty(),
            }
        } else if !valid_utf8(content) {
            FrameModel {
                lines: Seq::<Seq<char>>::empty(),
                error: Some(ParseErrModel::EncodingError),
                rest: Seq::<u8>::empty(),
            }
        } else {
            let r = spec_frame(completes.drop_first(), rem);
            FrameModel { lines: seq![decode_utf8(content)] + r.lines, error: r.error, rest: r.rest }
        }
    }
}

/// What feeding `data` after `buffered` yields: the concatenation is
/// split at every line feed; all pieces but the last are complete lines,
/// the last is the new remainder.
pub open spec fn spec_feed(buffered: Seq<u8>, data: Seq<u8>) -> FrameModel {
    let segs = split_on(buffered + data, LINE_FEED);
    spec_frame(segs.take(segs.len() - 1), segs.last())
}

/// The view of the optional error of a feed.
pub open spec fn frame_err_view(e: Option<CommandParseError>) -> Option<ParseErrModel> {
    match e {
        Some(err) => Some(err@),
        None => None,
    }
}

/// What one feed hands back to the caller.
pub struct FramerStep {
    /// The complete lines, decoded, in arrival order.
    pub lines: Vec<String>,
    /// The framing or encoding error that closes the connection, if any.
    pub error: Option<CommandParseError>,
}

/// Relies on `String::from_utf8`: it returns `Ok` exactly when the bytes
/// are valid UTF-8, and the returned string's characters decode those
/// bytes.
#[verifier::external_body]
fn decode_utf8_bytes(bytes: Vec<u8>) -> (r: Option<String>)
    ensures
        r is Some <==> valid_utf8(bytes@),
        r matches Some(s) ==> s@ == decode_utf8(bytes@),
{
    String::from_utf8(bytes).ok()
}

/// The per-connection receive buffer.  Its view is the unterminated
/// bytes held between feeds.
pub struct Framer {
    buf: Vec<u8>,
}

impl View for Framer {
    type V = Seq<u8>;

    closed spec fn view(&self) -> Seq<u8> {
        self.buf@
    }
}

impl Framer {
    /// A fresh framer with an empty buffer.
    pub fn new() -> (r: Self)
        ensures
            r@ == Seq::<u8>::empty(),
    {
        Framer { buf: Vec::new() }
    }

    /// Feeds newly read bytes, exactly as [`spec_feed`] describes: the
    /// complete lines come back decoded, the unterminated remainder
    /// stays buffered, and on a framing or encoding error the lines
    /// framed before the offence come back beside the error.
    pub fn feed(&mut self, data: &[u8]) -> (r: FramerStep)
        ensures
            ({
                let m = spec_feed(old(self)@, data@);
                &&& r.lines.deep_view() == m.lines
                &&& frame_err_view(r.error) == m.error
                &&& final(self)@ == m.rest
            }),
    {
        let mut whole: Vec<u8> = Vec::new();
        whole.append(&mut self.buf);
        whole.extend_from_slice(data);
        let ghost whole_s = whole@;
        proof {
            assert(whole_s =~= old(self)@ + data@);
            lemma_split_on_len(whole_s, LINE_FEED);
        }
        let mut segs = split_bytes(whole.as_slice(), LINE_FEED);
        let ghost all_segs = segs.deep_view();
        let rem = match segs.pop() {
            Some(v) => v,
            None => {
                // Splitting always yields at least one piece.
                proof {
                    assert(false);
                }
                Vec::new()
            },
        };
        let ghost completes = segs.deep_view();
        let ghost remv = rem@;
        proof {
            assert(completes =~= all_segs.take(all_segs.len() - 1));
            assert(remv == all_segs.last());
        }
        let ghost target = spec_frame(completes, remv);
        let n = segs.len();
        let mut lines: Vec<String> = Vec::new();
        proof {
            assert(completes.skip(0) =~= completes);
            assert(lines.deep_view() =~= Seq::<Seq<char>>::empty());
            assert(target.lines =~= lines.deep_view() + spec_frame(
                completes.skip(0),
                remv,
            ).lines);
        }
        let mut i: usize = 0;
        while i < n
            invariant
                n == segs@.len(),
                n == completes.len(),
                completes == segs.deep_view(),
                remv == rem@,
                i <= n,
                target == spec_frame(completes, remv),
                target == spec_feed(old(self)@, data@),
                target.lines == lines.deep_view() + spec_frame(
                    completes.skip(i as int),
                    remv,
                ).lines,
                target.error == spec_frame(completes.skip(i as int), remv).error,
                target.rest == spec_frame(completes.skip(i as int), remv).rest,
            decreases n - i,
        {
            proof {
                assert(completes.skip(i as int)[0] == completes[i as int]);
                assert(completes.skip(i as int).drop_first() =~= completes.skip(i as int + 1));
                assert(completes[i as int] == segs@[i as int]@);
            }
            let seg = &segs[i];
            let seg_len = seg.len();
            let content: Vec<u8> = if seg_len > 0 && seg[seg_len - 1] == CARRIAGE_RETURN {
                vstd::slice::slice_to_vec(
                    vstd::slice::slice_subrange(seg.as_slice(), 0, seg_len - 1),
                )
            } else {
                vstd::slice::slice_to_vec(seg.as_slice())
            };
            proof {
                assert(content@ =~= strip_cr(completes[i as int]));
            }
            if content.len() > MAX_LINE {
                self.buf = Vec::new();
                proof {
                    assert(target.lines =~= lines.deep_view());
                    assert(self@ =~= Seq::<u8>::empty());
                }
                return FramerStep { lines, error: Some(CommandParseError::LineTooLong) };
            }
            let ghost pre_lines = lines.deep_view();
            match decode_utf8_bytes(content) {
                Some(s) => {
                    lines.push(s);
                    proof {
                        assert(lines.deep_view() =~= pre_lines.push(
                            decode_utf8(strip_cr(completes[i as int])),
                        ));
                        assert(target.lines =~= lines.deep_view() + spec_frame(
                            completes.skip(i as int + 1),
                            remv,
                        ).lines);
                    }
                },
                None => {
                    self.buf = Vec::new();
                    proof {
                        assert(target.lines =~= lines.deep_view());
                        assert(self@ =~= Seq::<u8>::empty());
                    }
                    return FramerStep { lines, error: Some(CommandParseError::EncodingError) };
                },
            }
            i = i + 1;
        }
        proof {
            assert(completes.skip(n as int) =~= Seq::<Seq<u8>>::empty());
            assert(target.lines =~= lines.deep_view());
        }
        if rem.len() > MAX_LINE {
            self.buf = Vec::new();
            proof {
                assert(self@ =~= Seq::<u8>::empty());
            }
            return FramerStep { lines, error: Some(CommandParseError::LineTooLong) };
        }
        self.buf = rem;
        FramerStep { lines, error: None }
    }
}

} // verus!
