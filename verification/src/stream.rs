//! Decoding an H.264 byte stream that arrives piece by piece, e.g. over a network.

use vstd::prelude::*;

use crate::utils::{
    complete_units, find_start_code, from_first_start, is_nal_unit, lemma_complete_none,
    lemma_complete_step, lemma_feed_keeps_history, lemma_first_start_at, lemma_next_start_found,
    lemma_next_start_skip, lemma_owed_grow, lemma_starts_kept, next_start, no_start_in,
    search_from, starts_nal,
};

verus! {

/// What the caller of [`NalParser::get_packet`] or [`VideoStreamDecoder::decode_images`] does next.
#[derive(PartialEq, Debug)]
pub enum VideoStreamAction {
    /// Call again without reading more data.
    CallNext,
    /// Read more data and send it in.
    ReadMore,
    /// A complete packet, from one start code up to the next.
    ProcessPacket(Vec<u8>),
}

/// Parses NAL marks (0, 0, 1) from the byte stream.
///
/// It deals with cross-boundary checks when a frame is partially read.
pub struct NalParser {
    leftover_buffer: Vec<u8>,
    curr_offset: usize,
    last_nal: Option<usize>,
    sent: Ghost<Seq<u8>>,
    handed: Ghost<Seq<Seq<u8>>>,
}

impl NalParser {
    /// The bytes sent in and not yet handed out.
    pub closed spec fn pending(&self) -> Seq<u8> {
        self.leftover_buffer@
    }

    /// The position in `pending()` of the start code that opens the next packet, once found.
    pub closed spec fn mark(&self) -> Option<int> {
        match self.last_nal {
            Some(k) => Some(k as int),
            None => None,
        }
    }

    /// The packets that reading until `ReadMore` hands out: the complete units of what is pending.
    pub open spec fn owed(&self) -> Seq<Seq<u8>> {
        complete_units(from_first_start(self.pending()))
    }

    /// All bytes sent in so far.
    pub closed spec fn sent(&self) -> Seq<u8> {
        self.sent@
    }

    /// The packets handed out so far, in order.
    pub closed spec fn handed(&self) -> Seq<Seq<u8>> {
        self.handed@
    }

    /// The search offset follows the mark, and a mark is the first start code of what is pending;
    /// what is pending is all bytes sent in, or what is left of them from a start code on once
    /// packets were handed out; and the packets handed out and those owed are the complete units
    /// of all bytes sent in.
    pub closed spec fn wf(&self) -> bool {
        &&& match self.last_nal {
            None => self.curr_offset == 0,
            Some(k) => {
                &&& self.curr_offset == k + 2
                &&& starts_nal(self.leftover_buffer@, k as int)
                &&& no_start_in(self.leftover_buffer@, 0, k as int)
            },
        }
        &&& self.pending() == self.sent() || (self.pending().len() <= self.sent().len()
            && self.sent().skip(self.sent().len() - self.pending().len()) == self.pending()
            && starts_nal(self.pending(), 0))
        &&& self.handed() + self.owed() == complete_units(from_first_start(self.sent()))
    }

    /// Creates a parser with nothing pending.
    pub fn new() -> (p: Self)
        ensures
            p.wf(),
            p.pending() == Seq::<u8>::empty(),
            p.mark() is None,
            p.sent() == Seq::<u8>::empty(),
            p.handed() == Seq::<Seq<u8>>::empty(),
    {
        let p = NalParser {
            leftover_buffer: Vec::new(),
            curr_offset: 0,
            last_nal: None,
            sent: Ghost(Seq::empty()),
            handed: Ghost(Seq::empty()),
        };
        proof {
            assert(p.pending() =~= p.sent());
            assert(p.handed() + p.owed() =~= complete_units(from_first_start(p.sent())));
        }
        p
    }

    /// The position of the start code found last, as the parser keeps it.
    pub fn last_nal(&self) -> (r: Option<usize>)
        ensures
            match r {
                Some(k) => self.mark() == Some(k as int),
                None => self.mark() is None,
            },
    {
        self.last_nal
    }

    /// Reads more of the pending buffer, hands out a packet and cuts it off the front.
    ///
    /// Returns `ReadMore` when nothing is pending or no further start code is in sight, `CallNext`
    /// when the first start code has just been found, and `ProcessPacket` with the bytes from the
    /// remembered start code up to the next one.
    pub fn get_packet(&mut self) -> (r: VideoStreamAction)
        requires
            old(self).wf(),
        ensures
            final(self).wf(),
            match next_start(old(self).pending(), search_from(old(self).mark())) {
                None => {
                    &&& r is ReadMore
                    &&& final(self).pending() == old(self).pending()
                    &&& final(self).mark() == old(self).mark()
                },
                Some(idx) => match old(self).mark() {
                    None => {
                        &&& r is CallNext
                        &&& final(self).pending() == old(self).pending()
                        &&& final(self).mark() == Some(idx)
                    },
                    Some(k) => {
                        &&& r matches VideoStreamAction::ProcessPacket(p) && p@ == old(
                            self,
                        ).pending().subrange(k, idx)
                        &&& final(self).pending() == old(self).pending().skip(idx)
                        &&& final(self).mark() == Some(0int)
                    },
                },
            },
            r matches VideoStreamAction::ProcessPacket(p) ==> is_nal_unit(p@),
            r matches VideoStreamAction::ProcessPacket(p) ==> p@ + from_first_start(
                final(self).pending(),
            ) == from_first_start(old(self).pending()),
            r matches VideoStreamAction::ProcessPacket(p) ==> old(self).owed() == seq![p@]
                + final(self).owed(),
            !(r is ProcessPacket) ==> final(self).owed() == old(self).owed(),
            r is ReadMore ==> old(self).owed() == Seq::<Seq<u8>>::empty(),
            final(self).sent() == old(self).sent(),
            r matches VideoStreamAction::ProcessPacket(p) ==> final(self).handed() == old(
                self,
            ).handed().push(p@),
            !(r is ProcessPacket) ==> final(self).handed() == old(self).handed(),
    {
        let ghost s = self.leftover_buffer@;
        if self.leftover_buffer.len() < 3 {
            proof {
                if let Some(k) = self.last_nal {
                    assert(starts_nal(s, k as int));
                }
                assert(next_start(s, 0) is None);
                assert(next_start(s, search_from(self.mark())) is None);
                assert(from_first_start(s) == Seq::<u8>::empty());
                assert(complete_units(Seq::<u8>::empty()) == Seq::<Seq<u8>>::empty());
            }
            return VideoStreamAction::ReadMore;
        }
        match self.get_nal_mark() {
            Some(idx) => {
                match self.last_nal {
                    Some(last_offset) => {
                        proof {
                            lemma_next_start_found(s, last_offset + 2);
                            lemma_next_start_skip(s, 0, last_offset as int);
                            lemma_first_start_at(s, last_offset as int);
                            lemma_complete_step(s, last_offset as int, idx as int);
                        }
                        let buf = self.leftover_buffer.as_slice();
                        let packet = vstd::slice::slice_to_vec(
                            vstd::slice::slice_subrange(buf, last_offset, idx),
                        );
                        let rest = vstd::slice::slice_to_vec(
                            vstd::slice::slice_subrange(buf, idx, buf.len()),
                        );
                        let ghost before_handed = self.handed@;
                        let ghost sent = self.sent@;
                        self.leftover_buffer = rest;
                        self.last_nal = Some(0);
                        self.curr_offset = 2;
                        self.handed = Ghost(self.handed@.push(packet@));
                        proof {
                            assert(rest@ =~= s.skip(idx as int));
                            assert(self.handed() + self.owed() =~= before_handed + (seq![packet@]
                                + self.owed()));
                            assert(sent.skip(sent.len() - rest@.len()) =~= rest@) by {
                                if s != sent {
                                    assert(s =~= sent.skip(sent.len() - s.len()));
                                }
                            }
                        }
                        proof {
                            let p = packet@;
                            let t = rest@;
                            assert(starts_nal(p, 0));
                            assert forall|i: int| 1 <= i < p.len() implies !#[trigger] starts_nal(
                                p,
                                i,
                            ) by {
                                if starts_nal(p, i) {
                                    assert(starts_nal(s, last_offset + i));
                                }
                            }
                            assert(starts_nal(t, 0));
                            assert(no_start_in(t, 0, 0));
                            assert(next_start(t, 0) == Some(0int));
                            assert(t.skip(0) =~= t);
                            assert(p + t =~= s.skip(last_offset as int));
                        }
                        proof {
                            assert(rest@ =~= s.skip(idx as int));
                        }
                        VideoStreamAction::ProcessPacket(packet)
                    },
                    None => {
                        proof {
                            lemma_next_start_found(s, 0);
                        }
                        self.curr_offset = idx + 2;
                        self.last_nal = Some(idx);
                        VideoStreamAction::CallNext
                    },
                }
            },
            None => {
                proof {
                    match self.last_nal {
                        Some(k) => {
                            lemma_first_start_at(s, k as int);
                            lemma_complete_none(s, k as int);
                        },
                        None => {
                            assert(from_first_start(s) == Seq::<u8>::empty());
                            assert(complete_units(Seq::<u8>::empty()) == Seq::<Seq<u8>>::empty());
                        },
                    }
                }
                VideoStreamAction::ReadMore
            },
        }
    }

    /// Moves all bytes of `buffer` to the end of the pending buffer, leaving `buffer` empty.
    pub fn send_stream(&mut self, buffer: &mut Vec<u8>)
        requires
            old(self).wf(),
        ensures
            final(self).wf(),
            final(self).pending() == old(self).pending() + old(buffer)@,
            final(self).mark() == old(self).mark(),
            final(buffer)@ == Seq::<u8>::empty(),
            old(self).owed().len() <= final(self).owed().len(),
            final(self).owed().subrange(0, old(self).owed().len() as int) == old(self).owed(),
            final(self).sent() == old(self).sent() + old(buffer)@,
            final(self).handed() == old(self).handed(),
    {
        let ghost s = self.leftover_buffer@;
        let ghost b = buffer@;
        let ghost sent = self.sent@;
        self.leftover_buffer.append(buffer);
        self.sent = Ghost(self.sent@ + b);
        proof {
            lemma_feed_keeps_history(sent, s, self.handed@, b);
            if s != sent {
                let t = s + b;
                let g = sent + b;
                lemma_starts_kept(s, b, 0);
                assert(g.skip(g.len() - t.len()) =~= t) by {
                    assert(sent.skip(sent.len() - s.len()) == s);
                    assert forall|i: int| 0 <= i < t.len() implies g.skip(g.len() - t.len())[i]
                        == t[i] by {
                        if i < s.len() {
                            assert(sent.skip(sent.len() - s.len())[i] == s[i]);
                        }
                    }
                }
            }
        }
        proof {
            let t = self.leftover_buffer@;
            lemma_owed_grow(s, b);
            if let Some(k) = self.last_nal {
                lemma_starts_kept(s, b, k as int);
                assert forall|i: int| 0 <= i < k implies !#[trigger] starts_nal(t, i) by {
                    lemma_starts_kept(s, b, i);
                }
            }
        }
    }

    fn get_nal_mark(&self) -> (r: Option<usize>)
        requires
            self.wf(),
            self.leftover_buffer@.len() >= 2,
        ensures
            r matches Some(i) ==> next_start(self.pending(), search_from(self.mark())) == Some(
                i as int,
            ),
            r is None ==> next_start(self.pending(), search_from(self.mark())) is None,
    {
        find_start_code(self.leftover_buffer.as_slice(), self.curr_offset)
    }
}

/// What the native decoder made of one packet, with the picture when there is one.
pub enum Decoded<P> {
    /// The decoder returned an error.
    Failed,
    /// The decoder accepted the packet but has no picture yet.
    NoPicture,
    /// The decoder produced this picture.
    Picture(P),
}

/// The picture to write out: the decoded one, unless there is none or it is skipped.
pub open spec fn to_write<P>(d: Decoded<P>, skip: bool) -> Option<P> {
    match d {
        Decoded::Picture(p) => if skip {
            None
        } else {
            Some(p)
        },
        _ => None,
    }
}

/// Counters kept across the packets of a stream.
#[derive(Clone, Copy, PartialEq, Eq, Debug, Structural)]
pub struct VideoStreamDecoderProps {
    /// Every `skip_frames`-th picture is written out; 0 writes every picture.
    pub skip_frames: usize,
    /// Pictures produced so far.
    pub frame_no: usize,
    /// Packets handed to the decoder so far.
    pub packet_no: usize,
    /// Packets the decoder accepted so far.
    pub packet_decode_ok: usize,
}

/// Whether the picture that would come next (number `frame_no`) is not written out.
pub open spec fn skips_frame(props: VideoStreamDecoderProps) -> bool {
    props.skip_frames != 0 && props.frame_no % props.skip_frames != 0
}

/// The counters after one more packet was handed to the decoder with the given outcome.
pub open spec fn counted<P>(props: VideoStreamDecoderProps, outcome: Decoded<P>) -> VideoStreamDecoderProps {
    let p = VideoStreamDecoderProps { packet_no: (props.packet_no + 1) as usize, ..props };
    match outcome {
        Decoded::Failed => p,
        Decoded::NoPicture => VideoStreamDecoderProps {
            packet_decode_ok: (p.packet_decode_ok + 1) as usize,
            ..p
        },
        Decoded::Picture(_) => VideoStreamDecoderProps {
            packet_decode_ok: (p.packet_decode_ok + 1) as usize,
            frame_no: (p.frame_no + 1) as usize,
            ..p
        },
    }
}

/// Decodes H.264 from a byte stream received, e.g., over a network.
///
/// The native decoder is reached through the function that [`Self::decode_images`] takes.
pub struct VideoStreamDecoder {
    props: VideoStreamDecoderProps,
    np: NalParser,
}

impl VideoStreamDecoder {
    /// The counters.
    pub closed spec fn spec_props(&self) -> VideoStreamDecoderProps {
        self.props
    }

    /// The stream parser.
    pub closed spec fn parser(&self) -> NalParser {
        self.np
    }

    /// Creates a decoder that writes out every `skip_frames`-th picture (every one for 0).
    pub fn new(skip_frames: usize) -> (d: Self)
        ensures
            d.spec_props() == (VideoStreamDecoderProps {
                skip_frames,
                frame_no: 0,
                packet_no: 0,
                packet_decode_ok: 0,
            }),
            d.parser().wf(),
            d.parser().pending() == Seq::<u8>::empty(),
            d.parser().mark() is None,
            d.parser().sent() == Seq::<u8>::empty(),
            d.parser().handed() == Seq::<Seq<u8>>::empty(),
    {
        VideoStreamDecoder {
            props: VideoStreamDecoderProps {
                skip_frames,
                frame_no: 0,
                packet_no: 0,
                packet_decode_ok: 0,
            },
            np: NalParser::new(),
        }
    }

    /// The counters kept so far.
    pub fn props(&self) -> (p: VideoStreamDecoderProps)
        ensures
            p == self.spec_props(),
    {
        self.props
    }

    /// Moves all bytes of `buffer` into the stream parser, leaving `buffer` empty.
    pub fn send_stream(&mut self, buffer: &mut Vec<u8>)
        requires
            old(self).parser().wf(),
        ensures
            final(self).parser().wf(),
            final(self).parser().pending() == old(self).parser().pending() + old(buffer)@,
            final(self).parser().mark() == old(self).parser().mark(),
            final(self).parser().sent() == old(self).parser().sent() + old(buffer)@,
            final(self).parser().handed() == old(self).parser().handed(),
            final(self).spec_props() == old(self).spec_props(),
            final(buffer)@ == Seq::<u8>::empty(),
            old(self).parser().owed().len() <= final(self).parser().owed().len(),
            final(self).parser().owed().subrange(0, old(self).parser().owed().len() as int) == old(
                self,
            ).parser().owed(),
    {
        self.np.send_stream(buffer);
    }

    /// Takes the next packet from the stream, hands it to `decode` (which runs the native
    /// decoder) and decides whether the picture that comes out is written out.
    ///
    /// Returns what [`NalParser::get_packet`] returned, and the picture to write: the decoded
    /// picture, unless decoding gave none or its number is not a multiple of `skip_frames`. The
    /// counters follow what `decode` reported; nothing is decoded unless a packet was complete.
    pub fn decode_images<P, F: FnOnce(&Vec<u8>) -> Decoded<P>>(&mut self, decode: F) -> (r: (
        VideoStreamAction,
        Option<P>,
    ))
        requires
            old(self).parser().wf(),
            old(self).spec_props().packet_no < usize::MAX,
            old(self).spec_props().packet_decode_ok < usize::MAX,
            old(self).spec_props().frame_no < usize::MAX,
            forall|p: &Vec<u8>| call_requires(decode, (p,)),
        ensures
            final(self).parser().wf(),
            match next_start(
                old(self).parser().pending(),
                search_from(old(self).parser().mark()),
            ) {
                None => {
                    &&& r.0 is ReadMore
                    &&& final(self).parser().pending() == old(self).parser().pending()
                    &&& final(self).parser().mark() == old(self).parser().mark()
                },
                Some(idx) => match old(self).parser().mark() {
                    None => {
                        &&& r.0 is CallNext
                        &&& final(self).parser().pending() == old(self).parser().pending()
                        &&& final(self).parser().mark() == Some(idx)
                    },
                    Some(k) => {
                        &&& r.0 matches VideoStreamAction::ProcessPacket(p) && p@ == old(
                            self,
                        ).parser().pending().subrange(k, idx)
                        &&& final(self).parser().pending() == old(self).parser().pending().skip(
                            idx,
                        )
                        &&& final(self).parser().mark() == Some(0int)
                    },
                },
            },
            r.0 matches VideoStreamAction::ProcessPacket(p) ==> exists|o: Decoded<P>|
                #[trigger] call_ensures(decode, (&p,), o) && final(self).spec_props() == counted(
                    old(self).spec_props(),
                    o,
                ) && r.1 == to_write(o, skips_frame(old(self).spec_props())),
            !(r.0 is ProcessPacket) ==> final(self).spec_props() == old(self).spec_props()
                && r.1 is None,
            r.0 matches VideoStreamAction::ProcessPacket(p) ==> old(self).parser().owed() == seq![
                p@,
            ] + final(self).parser().owed(),
            !(r.0 is ProcessPacket) ==> final(self).parser().owed() == old(self).parser().owed(),
            r.0 is ReadMore ==> old(self).parser().owed() == Seq::<Seq<u8>>::empty(),
            final(self).parser().sent() == old(self).parser().sent(),
            r.0 matches VideoStreamAction::ProcessPacket(p) ==> final(self).parser().handed() == old(
                self,
            ).parser().handed().push(p@),
            !(r.0 is ProcessPacket) ==> final(self).parser().handed() == old(self).parser().handed(),
    {
        let r = self.np.get_packet();
        match r {
            VideoStreamAction::ProcessPacket(img) => {
                let ghost before = self.props;
                self.props.packet_no += 1;
                let skip_frame = self.props.skip_frames != 0 && self.props.frame_no
                    % self.props.skip_frames != 0;
                let decoded = decode(&img);
                let ghost o = decoded;
                let to_show = match decoded {
                    Decoded::Failed => None,
                    Decoded::NoPicture => {
                        self.props.packet_decode_ok += 1;
                        None
                    },
                    Decoded::Picture(picture) => {
                        self.props.packet_decode_ok += 1;
                        self.props.frame_no += 1;
                        if skip_frame {
                            None
                        } else {
                            Some(picture)
                        }
                    },
                };
                proof {
                    assert(self.props == counted(before, o));
                    assert(to_show == to_write(o, skip_frame));
                }
                (VideoStreamAction::ProcessPacket(img), to_show)
            },
            _ => (r, None),
        }
    }
}

/// However the stream was cut into the buffers sent in, and whenever packets were read in
/// between, the packets handed out so far followed by those still owed are the complete units of
/// all bytes sent in: reading after each buffer hands out what reading once after sending
/// everything would.
pub proof fn law_pieces_give_the_packets_of_the_whole(p: NalParser)
    requires
        p.wf(),
    ensures
        p.handed() + p.owed() == complete_units(from_first_start(p.sent())),
{
}

/// Frame skipping counts pictures: the picture decoded from a packet is written out exactly when
/// the number of pictures produced before it (`frame_no`, counting from 0) is a multiple of
/// `skip_frames`, or `skip_frames` is 0. Only a decoded picture advances that number; a packet
/// decoded without a picture, or one that failed, leaves it, and so the next decision, alone.
/// Every packet counts as handed to the decoder, and every one but a failed one as accepted.
pub proof fn law_skipping_counts_pictures<P>(props: VideoStreamDecoderProps, o: Decoded<P>)
    requires
        props.frame_no < usize::MAX,
        props.packet_no < usize::MAX,
        props.packet_decode_ok < usize::MAX,
    ensures
        to_write(o, skips_frame(props)) is Some <==> (o is Picture && (props.skip_frames == 0
            || props.frame_no % props.skip_frames == 0)),
        o matches Decoded::Picture(p) ==> ((props.skip_frames == 0 || props.frame_no
            % props.skip_frames == 0) ==> to_write(o, skips_frame(props)) == Some(p)),
        counted(props, o).frame_no == props.frame_no + if o is Picture {
            1int
        } else {
            0int
        },
        counted(props, o).packet_no == props.packet_no + 1,
        counted(props, o).packet_decode_ok == props.packet_decode_ok + if o is Failed {
            0int
        } else {
            1int
        },
        counted(props, o).skip_frames == props.skip_frames,
{
}

} // verus!
