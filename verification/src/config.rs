//! Fixed configuration of the agent, and the links that it opens in the browser.
use crate::text::chars_of;
use vstd::prelude::*;
use vstd::string::*;
use vstd::utf8::encode_utf8;

verus! {

// ── Server and addresses ────────────────────────────────────────────────────

/// Port of the local server.
pub const SERVER_PORT: u16 = 17173;

/// The origins whose pages may talk to the local server.
pub const ALLOWED_ORIGINS: [&'static str; 3] = [
    "https://www.amautum.com",
    "https://amautum.com",
    "http://localhost:3000",
];

/// Where the links that the agent opens live.
pub const AMAUTUM_BASE_URL: &'static str = "https://www.amautum.com";

/// This application, for the support desk.
pub const SUPPORT_APP_SLUG: &'static str = "transcriptor";

/// Version of the agent.
pub const VERSION: &'static str = "0.1.13";

/// How many characters of the context travel in a support link.
pub const SUPPORT_CONTEXT_CHARS: usize = 400;

// ── Sidecars ────────────────────────────────────────────────────────────────

/// Samples per second of the audio that the engine takes.
pub const WHISPER_SAMPLE_RATE: u32 = 16_000;

/// Channels of the audio that the engine takes.
pub const WHISPER_CHANNELS: u32 = 1;

/// The transcription engine.
pub const WHISPER_SIDECAR: &'static str = "whisper-cli";

/// The audio converter.
pub const FFMPEG_SIDECAR: &'static str = "ffmpeg";

/// The program that tells speakers apart. The agent works without it.
pub const DIARIZE_SIDECAR: &'static str = "sherpa-diarize";

// ── Rhythms ─────────────────────────────────────────────────────────────────

/// Seconds between two heartbeats of a job that is being transcribed.
pub const HEARTBEAT_INTERVAL_SECS: u64 = 10;

/// The longest that Amautum goes without a progress report, in seconds.
pub const CLOUD_PROGRESS_MAX_INTERVAL_SECS: u64 = 120;

/// The longest silence of the engine before it counts as stuck, in seconds.
pub const ENGINE_SILENCE_TIMEOUT_SECS: u64 = 25 * 60;

/// Seconds from the start of the agent to the first question about newer versions.
pub const UPDATE_CHECK_DELAY_SECS: u64 = 20;

/// Seconds between two questions about newer versions.
pub const UPDATE_CHECK_INTERVAL_SECS: u64 = 6 * 60 * 60;

/// Seconds from the start of the agent to the first attempt to upload what is on disk.
pub const UPLOAD_RETRY_DELAY_SECS: u64 = 10;

/// Seconds between two attempts to upload what is on disk.
pub const UPLOAD_RETRY_INTERVAL_SECS: u64 = 5 * 60;

/// Lines of the log that are kept.
pub const LOG_BUFFER_LINES: usize = 300;

/// Finished jobs that are kept.
pub const JOB_HISTORY_LIMIT: usize = 8;

// ── Models that tell speakers apart ─────────────────────────────────────────

pub const DIARIZE_SEGMENTATION_MODEL: &'static str = "sherpa-onnx-pyannote-segmentation-3-0.onnx";

pub const DIARIZE_SEGMENTATION_URL: &'static str = "https://huggingface.co/csukuangfj/sherpa-onnx-pyannote-segmentation-3-0/resolve/main/model.onnx";

/// A smaller file is a download that was cut short.
pub const DIARIZE_SEGMENTATION_MIN_BYTES: u64 = 4 * 1024 * 1024;

pub const DIARIZE_EMBEDDING_MODEL: &'static str = "3dspeaker_speech_eres2net_base_sv_zh-cn_3dspeaker_16k.onnx";

pub const DIARIZE_EMBEDDING_URL: &'static str = "https://huggingface.co/csukuangfj/speaker-embedding-models/resolve/main/3dspeaker_speech_eres2net_base_sv_zh-cn_3dspeaker_16k.onnx";

/// A smaller file is a download that was cut short.
pub const DIARIZE_EMBEDDING_MIN_BYTES: u64 = 20 * 1024 * 1024;

// ── The machine ─────────────────────────────────────────────────────────────

/// The operating systems that the agent tells apart. `Linux` stands for any other.
#[derive(Debug, Clone, Copy, PartialEq, Eq, Structural)]
pub enum Os {
    Windows,
    MacOs,
    Linux,
}

/// The processors that the agent tells apart. `X64` stands for any other.
#[derive(Debug, Clone, Copy, PartialEq, Eq, Structural)]
pub enum Arch {
    Arm64,
    X64,
}

/// What the agent runs on.
#[derive(Debug, Clone, Copy, PartialEq, Eq, Structural)]
pub struct Host {
    pub os: Os,
    pub arch: Arch,
}

/// The system and the processor in words.
pub open spec fn os_text(host: Host) -> Seq<char> {
    (match host.os {
        Os::Windows => "Windows"@,
        Os::MacOs => "macOS"@,
        Os::Linux => "Linux"@,
    }) + " "@ + (match host.arch {
        Arch::Arm64 => "arm64"@,
        Arch::X64 => "x64"@,
    })
}

/// The operating system in a person's words.
pub fn os_label(host: Host) -> (r: String)
    ensures
        r@ == os_text(host),
{
    let mut out = match host.os {
        Os::Windows => "Windows".to_string(),
        Os::MacOs => "macOS".to_string(),
        Os::Linux => "Linux".to_string(),
    };
    out.append(" ");
    out.append(
        match host.arch {
            Arch::Arm64 => "arm64",
            Arch::X64 => "x64",
        },
    );
    out
}

// ── Percent encoding ────────────────────────────────────────────────────────

/// The bytes that stand for themselves in a query string.
pub open spec fn unreserved(b: u8) -> bool {
    ||| 65 <= b <= 90  // A-Z
    ||| 97 <= b <= 122  // a-z
    ||| 48 <= b <= 57  // 0-9
    ||| b == 45  // -
    ||| b == 95  // _
    ||| b == 46  // .
    ||| b == 126  // ~

}

/// The hexadecimal digit of `d`, below sixteen.
pub open spec fn hex_digit(d: u8) -> char {
    if d < 10 {
        (48 + d) as char
    } else {
        (55 + d) as char
    }
}

/// One byte, percent-encoded.
pub open spec fn percent_byte(b: u8) -> Seq<char> {
    if unreserved(b) {
        seq![b as char]
    } else {
        seq!['%', hex_digit(b / 16), hex_digit(b % 16)]
    }
}

/// `bytes`, percent-encoded.
pub open spec fn percent_encode(bytes: Seq<u8>) -> Seq<char>
    decreases bytes.len(),
{
    if bytes.len() == 0 {
        Seq::empty()
    } else {
        percent_encode(bytes.drop_last()) + percent_byte(bytes.last())
    }
}

/// The value of a hexadecimal digit.
pub open spec fn hex_value(c: char) -> u8 {
    if '0' <= c <= '9' {
        (c as u8 - 48) as u8
    } else {
        (c as u8 - 55) as u8
    }
}

/// What a percent-encoded text stands for.
pub open spec fn percent_decode(s: Seq<char>) -> Seq<u8>
    decreases s.len(),
{
    if s.len() == 0 {
        Seq::empty()
    } else if s[0] == '%' && s.len() >= 3 {
        seq![(hex_value(s[1]) * 16 + hex_value(s[2])) as u8] + percent_decode(s.skip(3))
    } else {
        seq![s[0] as u8] + percent_decode(s.drop_first())
    }
}

/// Whether `c` can stand in a percent-encoded text.
pub open spec fn query_char(c: char) -> bool {
    c == '%' || ((c as u32) < 128 && unreserved(c as u8))
}

fn hex_char(d: u8) -> (r: char)
    requires
        d < 16,
    ensures
        r == hex_digit(d),
{
    if d < 10 {
        (48 + d) as char
    } else {
        (55 + d) as char
    }
}

/// `input`, percent-encoded for a query string.
pub fn urlencode(input: &str) -> (r: String)
    ensures
        r@ == percent_encode(encode_utf8(input@)),
{
    let bytes = input.as_bytes();
    let mut out = String::new();
    let mut i: usize = 0;
    while i < bytes.len()
        invariant
            i <= bytes@.len(),
            out@ == percent_encode(bytes@.take(i as int)),
        decreases bytes@.len() - i,
    {
        let b = bytes[i];
        let ghost before = out@;
        if (65 <= b && b <= 90) || (97 <= b && b <= 122) || (48 <= b && b <= 57) || b == 45 || b
            == 95 || b == 46 || b == 126 {
            out.push(b as char);
        } else {
            out.push('%');
            out.push(hex_char(b / 16));
            out.push(hex_char(b % 16));
        }
        proof {
            assert(bytes@.take(i + 1).drop_last() =~= bytes@.take(i as int));
            assert(out@ =~= before + percent_byte(b));
        }
        i += 1;
    }
    assert(bytes@.take(i as int) =~= bytes@);
    out
}

proof fn lemma_percent_encode_first(bytes: Seq<u8>)
    requires
        bytes.len() != 0,
    ensures
        percent_encode(bytes) == percent_byte(bytes[0]) + percent_encode(bytes.drop_first()),
    decreases bytes.len(),
{
    if bytes.len() == 1 {
        reveal_with_fuel(percent_encode, 2);
        assert(bytes.drop_last() =~= Seq::<u8>::empty());
        assert(bytes.drop_first() =~= Seq::<u8>::empty());
        assert(percent_encode(bytes) =~= percent_byte(bytes[0]));
        assert(percent_byte(bytes[0]) + percent_encode(bytes.drop_first()) =~= percent_byte(
            bytes[0],
        ));
    } else {
        lemma_percent_encode_first(bytes.drop_last());
        assert(bytes.drop_last().drop_first() =~= bytes.drop_first().drop_last());
        assert(percent_encode(bytes) =~= percent_byte(bytes[0]) + percent_encode(
            bytes.drop_first(),
        ));
    }
}

/// Nothing is lost in a percent-encoded text: decoding it gives the bytes back.
pub proof fn percent_round_trip(bytes: Seq<u8>)
    ensures
        percent_decode(percent_encode(bytes)) == bytes,
    decreases bytes.len(),
{
    if bytes.len() != 0 {
        let b = bytes[0];
        let rest = percent_encode(bytes.drop_first());
        lemma_percent_encode_first(bytes);
        percent_round_trip(bytes.drop_first());
        let s = percent_encode(bytes);
        assert(s =~= percent_byte(b) + rest);
        if unreserved(b) {
            assert(s[0] == b as char);
            assert(s.drop_first() =~= rest);
            assert(percent_decode(s) == seq![b] + bytes.drop_first());
        } else {
            assert(s[0] == '%');
            assert(s.skip(3) =~= rest);
            assert(hex_value(hex_digit(b / 16)) == b / 16);
            assert(hex_value(hex_digit(b % 16)) == b % 16);
            assert((b / 16) * 16 + b % 16 == b);
            assert(percent_decode(s) == seq![b] + bytes.drop_first());
        }
        assert(seq![b] + bytes.drop_first() =~= bytes);
    } else {
        assert(percent_decode(percent_encode(bytes)) =~= bytes);
    }
}

/// A percent-encoded text holds letters, digits and `-_.~%` alone: nothing in it can end the
/// parameter that it stands in, or the link.
pub proof fn percent_encode_is_query_text(bytes: Seq<u8>)
    ensures
        forall|i: int|
            0 <= i < percent_encode(bytes).len() ==> query_char(#[trigger] percent_encode(bytes)[i]),
    decreases bytes.len(),
{
    if bytes.len() != 0 {
        percent_encode_is_query_text(bytes.drop_last());
        let front = percent_encode(bytes.drop_last());
        let last = percent_byte(bytes.last());
        assert forall|i: int| 0 <= i < percent_encode(bytes).len() implies query_char(
            #[trigger] percent_encode(bytes)[i],
        ) by {
            if i < front.len() {
                assert(percent_encode(bytes)[i] == front[i]);
            } else {
                assert(percent_encode(bytes)[i] == last[i - front.len()]);
            }
        }
    }
}

// ── Links ───────────────────────────────────────────────────────────────────

/// The part of a context that travels in a support link.
pub open spec fn support_context(ctx: Seq<char>) -> Seq<char> {
    if ctx.len() <= SUPPORT_CONTEXT_CHARS {
        ctx
    } else {
        ctx.take(SUPPORT_CONTEXT_CHARS as int)
    }
}

/// The link to the support desk: the application, its version, the system, and what failed
/// where something did.
pub open spec fn support_link(context: Option<Seq<char>>, host: Host) -> Seq<char> {
    let base = AMAUTUM_BASE_URL@ + "/dashboard/support?app="@ + SUPPORT_APP_SLUG@ + "&v="@
        + percent_encode(encode_utf8(VERSION@)) + "&os="@ + percent_encode(
        encode_utf8(os_text(host)),
    );
    match context {
        Some(ctx) => base + "&ctx="@ + percent_encode(encode_utf8(support_context(ctx))),
        None => base,
    }
}

/// Where the agent sends whoever needs help.
pub fn support_url(context: Option<&str>, host: Host) -> (r: String)
    ensures
        r@ == support_link(
            match context {
                Some(s) => Some(s@),
                None => None,
            },
            host,
        ),
{
    let mut url = AMAUTUM_BASE_URL.to_string();
    url.append("/dashboard/support?app=");
    url.append(SUPPORT_APP_SLUG);
    url.append("&v=");
    url.append(urlencode(version()).as_str());
    url.append("&os=");
    url.append(urlencode(os_label(host).as_str()).as_str());
    match context {
        Some(ctx) => {
            let v = chars_of(ctx);
            let cut = if v.len() <= SUPPORT_CONTEXT_CHARS {
                v.len()
            } else {
                SUPPORT_CONTEXT_CHARS
            };
            let kept = crate::text::slice_string(&v, 0, cut);
            assert(kept@ =~= support_context(ctx@));
            url.append("&ctx=");
            url.append(urlencode(kept.as_str()).as_str());
        },
        None => {},
    }
    url
}

/// What failed arrives whole at the support desk, up to its first 400 characters: it is the
/// last parameter of the link, nothing in it can end that parameter, and decoding it gives it
/// back. Without a context the link has no such parameter.
pub proof fn support_link_carries_the_context(ctx: Seq<char>, host: Host)
    ensures
        ({
            let sent = percent_encode(encode_utf8(support_context(ctx)));
            &&& support_link(Some(ctx), host) == support_link(None, host) + "&ctx="@ + sent
            &&& percent_decode(sent) == encode_utf8(support_context(ctx))
            &&& forall|i: int| 0 <= i < sent.len() ==> query_char(#[trigger] sent[i])
        }),
{
    percent_round_trip(encode_utf8(support_context(ctx)));
    percent_encode_is_query_text(encode_utf8(support_context(ctx)));
}

/// The installation guide.
pub open spec fn downloads_page() -> Seq<char> {
    AMAUTUM_BASE_URL@ + "/downloads/transcriptor"@
}

/// The installation guide.
pub fn downloads_url() -> (r: String)
    ensures
        r@ == downloads_page(),
{
    let mut url = AMAUTUM_BASE_URL.to_string();
    url.append("/downloads/transcriptor");
    url
}

/// How the agent introduces itself to the servers that it calls.
pub fn user_agent() -> (r: String)
    ensures
        r@ == "AmautumTranscriptorAgent/"@ + VERSION@,
{
    let mut out = "AmautumTranscriptorAgent/".to_string();
    out.append(VERSION);
    out
}

/// Version of the agent.
pub fn version() -> (r: &'static str)
    ensures
        r@ == VERSION@,
{
    VERSION
}

// ── Laws ────────────────────────────────────────────────────────────────────

/// The system stands before the processor, each by its own name.
pub proof fn machines_are_told_in_words(os: Os, arch: Arch)
    ensures
        os_text(Host { os: Os::Windows, arch }) == "Windows "@ + (if arch == Arch::Arm64 {
            "arm64"@
        } else {
            "x64"@
        }),
        os_text(Host { os: Os::MacOs, arch }) == "macOS "@ + (if arch == Arch::Arm64 {
            "arm64"@
        } else {
            "x64"@
        }),
        os_text(Host { os: Os::Linux, arch }) == "Linux "@ + (if arch == Arch::Arm64 {
            "arm64"@
        } else {
            "x64"@
        }),
{
    reveal_strlit("Windows");
    reveal_strlit("Windows ");
    reveal_strlit("macOS");
    reveal_strlit("macOS ");
    reveal_strlit("Linux");
    reveal_strlit("Linux ");
    reveal_strlit(" ");
    assert("Windows"@ + " "@ =~= "Windows "@);
    assert("macOS"@ + " "@ =~= "macOS "@);
    assert("Linux"@ + " "@ =~= "Linux "@);
}

/// Bytes are encoded one by one, in their order. Letters, digits and `-_.~` stand for themselves;
/// any other byte is a percent sign with two hexadecimal digits behind it, in capitals, that
/// write its value.
pub proof fn bytes_are_encoded_one_by_one(a: Seq<u8>, b: Seq<u8>, x: u8)
    ensures
        percent_encode(Seq::empty()) == Seq::<char>::empty(),
        percent_encode(a + b) == percent_encode(a) + percent_encode(b),
        ({
            let c = x as char;
            let s = percent_encode(seq![x]);
            if '0' <= c <= '9' || 'A' <= c <= 'Z' || 'a' <= c <= 'z' || c == '-' || c == '_' || c
                == '.' || c == '~' {
                s == seq![c]
            } else {
                &&& s.len() == 3
                &&& s[0] == '%'
                &&& '0' <= s[1] <= '9' || 'A' <= s[1] <= 'F'
                &&& '0' <= s[2] <= '9' || 'A' <= s[2] <= 'F'
                &&& (if s[1] <= '9' {
                    s[1] as int - 48
                } else {
                    s[1] as int - 55
                }) * 16 + (if s[2] <= '9' {
                    s[2] as int - 48
                } else {
                    s[2] as int - 55
                }) == x
            }
        }),
    decreases b.len(),
{
    reveal_with_fuel(percent_encode, 2);
    assert(seq![x].drop_last() =~= Seq::<u8>::empty());
    assert(percent_encode(seq![x]) =~= percent_byte(x));
    if b.len() == 0 {
        assert(a + b =~= a);
        assert(percent_encode(a) + percent_encode(b) =~= percent_encode(a));
    } else {
        assert((a + b).drop_last() =~= a + b.drop_last());
        bytes_are_encoded_one_by_one(a, b.drop_last(), x);
        assert(percent_encode(a + b) =~= percent_encode(a) + percent_encode(b));
    }
}

/// A support link names the application, its version and the machine, in that order; of what
/// failed it carries the first four hundred characters, and all of them where there are no more.
pub proof fn a_support_link_says_who_asks(ctx: Seq<char>, host: Host)
    ensures
        support_link(None, host) == AMAUTUM_BASE_URL@ + "/dashboard/support?app="@
            + SUPPORT_APP_SLUG@ + "&v="@ + percent_encode(encode_utf8(VERSION@)) + "&os="@
            + percent_encode(encode_utf8(os_text(host))),
        support_context(ctx).len() == (if ctx.len() < 400 {
            ctx.len() as int
        } else {
            400
        }),
        support_context(ctx).is_prefix_of(ctx),
        ctx.len() <= 400 ==> support_context(ctx) == ctx,
        downloads_page() == AMAUTUM_BASE_URL@ + "/downloads/transcriptor"@,
{
}

} // verus!
