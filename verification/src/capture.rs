use vstd::prelude::*;
use crate::error::Error;
use crate::packet::Packet;

verus! {

/// What came of trying to open a source and find its best video stream.
pub enum OpenOutcome {
    /// The source could not be opened.
    Unopened,
    /// The source opened, but has no video stream with a decoder.
    NoVideoStream,
    /// The source opened; its best video stream has this index and frame width.
    Opened { stream_index: usize, width: i32 },
}

/// What came of reading the next packet from an opened source.
pub enum ReadOutcome {
    Packet(Packet),
    EndOfStream,
    Failed,
}

/// An opened source together with the video stream whose packets it hands out.
pub struct VideoCapture {
    video_index: i32,
}

impl VideoCapture {
    pub closed spec fn spec_video_index(&self) -> i32 {
        self.video_index
    }

    /// Settles the opening of the source at `path`: a source that did not
    /// open, or whose video stream has no positive width, cannot be captured
    /// from; one without a video stream is refused as such.
    pub fn new(path: &str, outcome: OpenOutcome) -> (r: Result<VideoCapture, Error>)
        ensures
            match outcome {
                OpenOutcome::Unopened => r matches Err(Error::FailedToOpenSource(p)) && p@ == path@,
                OpenOutcome::NoVideoStream => r == Err::<VideoCapture, Error>(Error::NoVideoStream),
                OpenOutcome::Opened { stream_index, width } => if width <= 0 {
                    r matches Err(Error::FailedToOpenSource(p)) && p@ == path@
                } else {
                    r matches Ok(c) && c.spec_video_index() == stream_index as i32
                },
            },
    {
        match outcome {
            OpenOutcome::Unopened => Err(Error::FailedToOpenSource(path.to_owned())),
            OpenOutcome::NoVideoStream => Err(Error::NoVideoStream),
            OpenOutcome::Opened { stream_index, width } => {
                if width <= 0 {
                    Err(Error::FailedToOpenSource(path.to_owned()))
                } else {
                    Ok(VideoCapture { video_index: stream_index as i32 })
                }
            },
        }
    }

    /// The index of the video stream.
    pub fn video_index(&self) -> (i: i32)
        ensures
            i == self.spec_video_index(),
    {
        self.video_index
    }

    /// One step of receiving the next video packet: given what the last read
    /// gave, either the answer of the receive (the packet, the end of the
    /// stream, or a read error), or `None` when the packet belongs to another
    /// stream and the next one must be read.
    pub fn receive(&self, read: ReadOutcome) -> (step: Option<Result<Option<Packet>, Error>>)
        ensures
            match read {
                ReadOutcome::EndOfStream => step == Some(Ok::<Option<Packet>, Error>(None)),
                ReadOutcome::Failed => step == Some(Err::<Option<Packet>, Error>(Error::ReadError)),
                ReadOutcome::Packet(p) => if p.stream_index == self.spec_video_index() {
                    step == Some(Ok::<Option<Packet>, Error>(Some(p)))
                } else {
                    step is None
                },
            },
            step matches Some(Ok(Some(p))) ==> p.stream_index == self.spec_video_index(),
    {
        match read {
            ReadOutcome::EndOfStream => Some(Ok(None)),
            ReadOutcome::Failed => Some(Err(Error::ReadError)),
            ReadOutcome::Packet(p) => {
                if p.stream_index != self.video_index {
                    None
                } else {
                    Some(Ok(Some(p)))
                }
            },
        }
    }
}

/// The character of a decimal digit.
pub open spec fn digit_char(d: nat) -> char {
    if d == 0 {
        '0'
    } else if d == 1 {
        '1'
    } else if d == 2 {
        '2'
    } else if d == 3 {
        '3'
    } else if d == 4 {
        '4'
    } else if d == 5 {
        '5'
    } else if d == 6 {
        '6'
    } else if d == 7 {
        '7'
    } else if d == 8 {
        '8'
    } else {
        '9'
    }
}

/// The decimal notation of `n`, without leading zeros.
pub open spec fn decimal(n: nat) -> Seq<char>
    decreases n,
{
    if n < 10 {
        seq![digit_char(n)]
    } else {
        decimal(n / 10).push(digit_char(n % 10))
    }
}

/// The value a decimal digit character stands for.
pub open spec fn digit_value(c: char) -> int {
    (c as int) - ('0' as int)
}

/// The number a string of decimal digits stands for.
pub open spec fn decimal_value(s: Seq<char>) -> int
    decreases s.len(),
{
    if s.len() == 0 {
        0
    } else {
        decimal_value(s.drop_last()) * 10 + digit_value(s.last())
    }
}

/// The decimal notation of a number is made of digits only, has no leading
/// zero, and reads back as the number.
pub proof fn lemma_decimal_reads_back(n: nat)
    ensures
        decimal(n).len() > 0,
        decimal_value(decimal(n)) == n,
        forall|i: int| 0 <= i < decimal(n).len() ==> ('0' as int) <= (#[trigger] decimal(n)[i] as int) <= ('9' as int),
        decimal(n).len() > 1 ==> decimal(n)[0] != '0',
    decreases n,
{
    if n < 10 {
        assert(digit_char(n) as int == '0' as int + n);
        assert(decimal(n).drop_last() =~= Seq::<char>::empty());
        assert(decimal_value(Seq::<char>::empty()) == 0);
        assert(decimal_value(decimal(n)) == decimal_value(decimal(n).drop_last()) * 10 + digit_value(decimal(n).last()));
    } else {
        let q = n / 10;
        let r = n % 10;
        lemma_decimal_reads_back(q);
        let d = decimal(q);
        let c = digit_char(r);
        assert(c as int == '0' as int + r);
        assert(decimal(n) == d.push(c));
        assert(d.push(c).drop_last() =~= d);
        assert(decimal_value(decimal(n)) == decimal_value(d) * 10 + digit_value(c));
        assert(q * 10 + r == n);
        assert forall|i: int| 0 <= i < decimal(n).len() implies ('0' as int) <= (#[trigger] decimal(n)[i] as int)
            <= ('9' as int) by {
            if i < d.len() {
                assert(decimal(n)[i] == d[i]);
            }
        }
        assert(decimal(n)[0] == d[0]);
        if d.len() == 1 {
            assert(q < 10 || d.len() > 1) by {
                if q >= 10 {
                    lemma_decimal_reads_back(q / 10);
                    assert(decimal(q) == decimal(q / 10).push(digit_char(q % 10)));
                }
            }
            assert(d[0] == digit_char(q));
            assert(digit_char(q) as int == '0' as int + q);
        }
    }
}

fn digit_str(d: u64) -> (s: &'static str)
    requires
        d < 10,
    ensures
        s@ == seq![digit_char(d as nat)],
{
    if d == 0 {
        proof { reveal_strlit("0"); }
        "0"
    } else if d == 1 {
        proof { reveal_strlit("1"); }
        "1"
    } else if d == 2 {
        proof { reveal_strlit("2"); }
        "2"
    } else if d == 3 {
        proof { reveal_strlit("3"); }
        "3"
    } else if d == 4 {
        proof { reveal_strlit("4"); }
        "4"
    } else if d == 5 {
        proof { reveal_strlit("5"); }
        "5"
    } else if d == 6 {
        proof { reveal_strlit("6"); }
        "6"
    } else if d == 7 {
        proof { reveal_strlit("7"); }
        "7"
    } else if d == 8 {
        proof { reveal_strlit("8"); }
        "8"
    } else {
        proof { reveal_strlit("9"); }
        "9"
    }
}

/// The decimal notation of `n`.
pub fn to_decimal(n: u64) -> (s: String)
    ensures
        s@ == decimal(n as nat),
    decreases n,
{
    if n < 10 {
        String::from_str(digit_str(n))
    } else {
        let mut s = to_decimal(n / 10);
        s.append(digit_str(n % 10));
        s
    }
}

/// The value of the `timeout` option for a timeout of `timeout` milliseconds:
/// the timeout in microseconds, in decimal.
pub open spec fn timeout_option(timeout: u32) -> Seq<char> {
    decimal((timeout * 1000) as nat)
}

/// The options a source is opened with: streams over RTSP are carried over
/// TCP, and the socket timeout is `timeout` milliseconds, given to FFmpeg in
/// microseconds.
pub fn input_options(timeout: u32) -> (opts: Vec<(String, String)>)
    ensures
        opts@.len() == 2,
        opts@[0].0@ == "rtsp_transport"@,
        opts@[0].1@ == "tcp"@,
        opts@[1].0@ == "timeout"@,
        opts@[1].1@ == timeout_option(timeout),
{
    let micros: u64 = timeout as u64 * 1000;
    let mut opts: Vec<(String, String)> = Vec::new();
    opts.push((String::from_str("rtsp_transport"), String::from_str("tcp")));
    opts.push((String::from_str("timeout"), to_decimal(micros)));
    opts
}

} // verus!
