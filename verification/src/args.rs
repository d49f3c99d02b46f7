//! The host's settings and its command line.
use vstd::prelude::*;

use crate::capture::{Backend, CaptureSource};
use crate::decimal::{
    decimal, lemma_decimal_reads_back, lemma_signed_decimal_reads_back, parse_isize, parse_u16,
    parse_u32, signed_decimal, signed_within, unsigned_up_to,
};
use crate::text::{join, same_text, views};

verus! {

/// How viewers find the host.
#[derive(Debug, Clone, Copy, PartialEq, Eq, Structural)]
pub enum SfuMode {
    /// The host serves its own page and takes offers over plain HTTP.
    Direct,
    /// P2P mesh: signals through the server over WebSocket and opens a
    /// separate peer connection per viewer.
    Mesh,
}

/// The host's settings.
pub struct Args {
    pub fps: u32,
    pub port: u16,
    pub bitrate_bps: u32,
    pub adapter_index: u32,
    pub output_index: u32,
    /// Raw `HWND` of a specific window to capture instead of a whole
    /// monitor. `None` (the default) captures the monitor identified by
    /// `adapter_index`/`output_index`.
    pub window_hwnd: Option<isize>,
    pub capture_backend: Backend,
    /// Direct HTTP signaling ("direct") vs. P2P mesh signaling ("mesh").
    pub sfu: SfuMode,
    /// Base HTTP URL of the server. In mesh mode this is rewritten to a
    /// `ws(s)://` URL for the signaling WebSocket connection.
    pub backend_url: String,
    /// This machine's address as seen by viewer browsers (e.g. a LAN IP).
    pub public_host: String,
    /// Skip the GUI and start streaming immediately from the CLI.
    pub headless: bool,
    /// STUN server (`host:port`) used for ICE candidate gathering. There is
    /// no TURN fallback: a peer that can't connect via P2P simply fails.
    pub stun_server: String,
    /// Token for servers that only take hosts they know.
    pub host_token: String,
}

/// What [`Args`] say.
#[verifier::ext_equal]
pub struct ArgsView {
    pub fps: u32,
    pub port: u16,
    pub bitrate_bps: u32,
    pub adapter_index: u32,
    pub output_index: u32,
    pub window_hwnd: Option<isize>,
    pub capture_backend: Backend,
    pub sfu: SfuMode,
    pub backend_url: Seq<char>,
    pub public_host: Seq<char>,
    pub headless: bool,
    pub stun_server: Seq<char>,
    pub host_token: Seq<char>,
}

impl View for Args {
    type V = ArgsView;

    open spec fn view(&self) -> ArgsView {
        ArgsView {
            fps: self.fps,
            port: self.port,
            bitrate_bps: self.bitrate_bps,
            adapter_index: self.adapter_index,
            output_index: self.output_index,
            window_hwnd: self.window_hwnd,
            capture_backend: self.capture_backend,
            sfu: self.sfu,
            backend_url: self.backend_url@,
            public_host: self.public_host@,
            headless: self.headless,
            stun_server: self.stun_server@,
            host_token: self.host_token@,
        }
    }
}

impl Clone for Args {
    fn clone(&self) -> (copy: Self)
        ensures
            copy@ == self@,
    {
        Args {
            fps: self.fps,
            port: self.port,
            bitrate_bps: self.bitrate_bps,
            adapter_index: self.adapter_index,
            output_index: self.output_index,
            window_hwnd: self.window_hwnd,
            capture_backend: self.capture_backend,
            sfu: self.sfu,
            backend_url: self.backend_url.clone(),
            public_host: self.public_host.clone(),
            headless: self.headless,
            stun_server: self.stun_server.clone(),
            host_token: self.host_token.clone(),
        }
    }
}

/// The server that hosts use.
pub const BACKEND_URL: &'static str = "https://framewire.hinodeent.com";

/// This machine's address unless `--public-host` says otherwise.
pub const DEFAULT_PUBLIC_HOST: &'static str = "127.0.0.1";

/// The STUN server unless `--stun-server` says otherwise.
pub const DEFAULT_STUN_SERVER: &'static str = "stun.l.google.com:19302";

/// The settings without any arguments.
pub open spec fn defaults() -> ArgsView {
    ArgsView {
        fps: 60,
        port: 8787,
        bitrate_bps: 20_000_000,
        adapter_index: 0,
        output_index: 0,
        window_hwnd: None,
        capture_backend: Backend::Auto,
        sfu: SfuMode::Mesh,
        backend_url: BACKEND_URL@,
        public_host: DEFAULT_PUBLIC_HOST@,
        headless: false,
        stun_server: DEFAULT_STUN_SERVER@,
        host_token: ""@,
    }
}

impl Default for Args {
    fn default() -> (args: Self)
        ensures
            args@ == defaults(),
    {
        Args {
            fps: 60,
            port: 8787,
            bitrate_bps: 20_000_000,
            adapter_index: 0,
            output_index: 0,
            window_hwnd: None,
            capture_backend: Backend::Auto,
            sfu: SfuMode::Mesh,
            backend_url: BACKEND_URL.to_owned(),
            public_host: DEFAULT_PUBLIC_HOST.to_owned(),
            headless: false,
            stun_server: DEFAULT_STUN_SERVER.to_owned(),
            host_token: "".to_owned(),
        }
    }
}

// ---------------------------------------------------------------------
// The command line
// ---------------------------------------------------------------------

/// Whether an argument is an option that takes the next argument as its
/// value.
pub open spec fn takes_value(word: Seq<char>) -> bool {
    ||| word == "--fps"@
    ||| word == "--port"@
    ||| word == "--bitrate"@
    ||| word == "--adapter"@
    ||| word == "--output"@
    ||| word == "--window"@
    ||| word == "--capture-backend"@
    ||| word == "--sfu"@
    ||| word == "--public-host"@
    ||| word == "--stun-server"@
}

/// The number that a value spells if it is there and no larger than `max`,
/// or else `otherwise`.
pub open spec fn number_or(value: Option<Seq<char>>, max: int, otherwise: int) -> int {
    match value {
        Some(text) => match unsigned_up_to(text, max) {
            Some(n) => n,
            None => otherwise,
        },
        None => otherwise,
    }
}

/// A value if it is there, or else `otherwise`.
pub open spec fn text_or(value: Option<Seq<char>>, otherwise: Seq<char>) -> Seq<char> {
    match value {
        Some(text) => text,
        None => otherwise,
    }
}

/// The settings after an option that takes a value. A value that is missing
/// or can't be read leaves most settings as they are, puts the adapter and
/// output back to 0, and the window, backend and mode to none, automatic and
/// direct.
pub open spec fn after_option(
    args: ArgsView,
    word: Seq<char>,
    value: Option<Seq<char>>,
) -> ArgsView {
    if word == "--fps"@ {
        ArgsView { fps: number_or(value, u32::MAX as int, args.fps as int) as u32, ..args }
    } else if word == "--port"@ {
        ArgsView { port: number_or(value, u16::MAX as int, args.port as int) as u16, ..args }
    } else if word == "--bitrate"@ {
        ArgsView {
            bitrate_bps: number_or(value, u32::MAX as int, args.bitrate_bps as int) as u32,
            ..args
        }
    } else if word == "--adapter"@ {
        ArgsView { adapter_index: number_or(value, u32::MAX as int, 0) as u32, ..args }
    } else if word == "--output"@ {
        ArgsView { output_index: number_or(value, u32::MAX as int, 0) as u32, ..args }
    } else if word == "--window"@ {
        ArgsView {
            window_hwnd: match value {
                Some(text) => match signed_within(text, isize::MIN as int, isize::MAX as int) {
                    Some(n) => Some(n as isize),
                    None => None,
                },
                None => None,
            },
            ..args
        }
    } else if word == "--capture-backend"@ {
        ArgsView {
            capture_backend: if value == Some("dxgi"@) {
                Backend::ForceDxgi
            } else if value == Some("wgc"@) {
                Backend::ForceWgc
            } else {
                Backend::Auto
            },
            ..args
        }
    } else if word == "--sfu"@ {
        ArgsView {
            sfu: if value == Some("mesh"@) {
                SfuMode::Mesh
            } else {
                SfuMode::Direct
            },
            ..args
        }
    } else if word == "--public-host"@ {
        ArgsView { public_host: text_or(value, args.public_host), ..args }
    } else if word == "--stun-server"@ {
        ArgsView { stun_server: text_or(value, args.stun_server), ..args }
    } else {
        args
    }
}

/// The settings after an argument that takes no value.
pub open spec fn after_word(args: ArgsView, word: Seq<char>) -> ArgsView {
    if word == "--headless"@ {
        ArgsView { headless: true, ..args }
    } else {
        args
    }
}

/// What there is to say about an option and its value.
pub open spec fn option_warnings(word: Seq<char>, value: Option<Seq<char>>) -> Seq<Seq<char>> {
    match value {
        Some(text) => if word == "--capture-backend"@ && text != "dxgi"@ && text != "wgc"@ && text
            != "auto"@ {
            seq!["warning: unknown --capture-backend '"@ + text + "', using auto"@]
        } else if word == "--sfu"@ && text != "mesh"@ && text != "direct"@ {
            seq!["warning: unknown --sfu '"@ + text + "', using direct"@]
        } else {
            Seq::empty()
        },
        None => Seq::empty(),
    }
}

/// What there is to say about an argument that takes no value.
pub open spec fn word_warnings(word: Seq<char>) -> Seq<Seq<char>> {
    if word == "--headless"@ {
        Seq::empty()
    } else {
        seq!["warning: ignoring unknown argument '"@ + word + "'"@]
    }
}

/// The value of an option: the argument behind it.
pub open spec fn value_behind(words: Seq<Seq<char>>) -> Option<Seq<char>> {
    if words.len() > 1 {
        Some(words[1])
    } else {
        None
    }
}

/// What is left behind an option and its value.
pub open spec fn behind_option(words: Seq<Seq<char>>) -> Seq<Seq<char>> {
    if words.len() > 1 {
        words.skip(2)
    } else {
        Seq::empty()
    }
}

/// The settings that arguments make out of given ones, taken one by one.
pub open spec fn after_words(args: ArgsView, words: Seq<Seq<char>>) -> ArgsView
    decreases words.len(),
{
    if words.len() == 0 {
        args
    } else if takes_value(words[0]) {
        after_words(after_option(args, words[0], value_behind(words)), behind_option(words))
    } else {
        after_words(after_word(args, words[0]), words.skip(1))
    }
}

/// What there is to say about arguments, in order.
pub open spec fn warnings_about(words: Seq<Seq<char>>) -> Seq<Seq<char>>
    decreases words.len(),
{
    if words.len() == 0 {
        Seq::empty()
    } else if takes_value(words[0]) {
        option_warnings(words[0], value_behind(words)) + warnings_about(behind_option(words))
    } else {
        word_warnings(words[0]) + warnings_about(words.skip(1))
    }
}

fn is_value_option(word: &str) -> (yes: bool)
    ensures
        yes == takes_value(word@),
{
    same_text(word, "--fps") || same_text(word, "--port") || same_text(word, "--bitrate")
        || same_text(word, "--adapter") || same_text(word, "--output") || same_text(word, "--window")
        || same_text(word, "--capture-backend") || same_text(word, "--sfu") || same_text(
        word,
        "--public-host",
    ) || same_text(word, "--stun-server")
}

fn read_u32(value: Option<&String>, otherwise: u32) -> (n: u32)
    ensures
        n == number_or(value_view(value), u32::MAX as int, otherwise as int),
{
    match value {
        Some(text) => match parse_u32(text.as_str()) {
            Some(n) => n,
            None => otherwise,
        },
        None => otherwise,
    }
}

fn read_text(value: Option<&String>, otherwise: &String) -> (text: String)
    ensures
        text@ == text_or(value_view(value), otherwise@),
{
    match value {
        Some(text) => text.clone(),
        None => otherwise.clone(),
    }
}

/// The text of an optional value.
pub open spec fn value_view(value: Option<&String>) -> Option<Seq<char>> {
    match value {
        Some(text) => Some(text@),
        None => None,
    }
}

/// Whether an optional value is there and is `text`.
fn value_is(value: Option<&String>, text: &str) -> (same: bool)
    ensures
        same == (value_view(value) == Some(text@)),
{
    match value {
        Some(v) => same_text(v.as_str(), text),
        None => false,
    }
}

/// Applies an option and its value to the settings.
fn apply_option(args: &mut Args, word: &str, value: Option<&String>)
    requires
        takes_value(word@),
    ensures
        final(args)@ == after_option(old(args)@, word@, value_view(value)),
{
    if same_text(word, "--fps") {
        args.fps = read_u32(value, args.fps);
    } else if same_text(word, "--port") {
        match value {
            Some(text) => match parse_u16(text.as_str()) {
                Some(n) => {
                    args.port = n;
                },
                None => {},
            },
            None => {},
        }
    } else if same_text(word, "--bitrate") {
        args.bitrate_bps = read_u32(value, args.bitrate_bps);
    } else if same_text(word, "--adapter") {
        args.adapter_index = read_u32(value, 0);
    } else if same_text(word, "--output") {
        args.output_index = read_u32(value, 0);
    } else if same_text(word, "--window") {
        args.window_hwnd = match value {
            Some(text) => parse_isize(text.as_str()),
            None => None,
        };
    } else if same_text(word, "--capture-backend") {
        args.capture_backend = if value_is(value, "dxgi") {
            Backend::ForceDxgi
        } else if value_is(value, "wgc") {
            Backend::ForceWgc
        } else {
            Backend::Auto
        };
    } else if same_text(word, "--sfu") {
        args.sfu = if value_is(value, "mesh") {
            SfuMode::Mesh
        } else {
            SfuMode::Direct
        };
    } else if same_text(word, "--public-host") {
        args.public_host = read_text(value, &args.public_host);
    } else {
        args.stun_server = read_text(value, &args.stun_server);
    }
}

/// Says what there is to say about an option and its value.
fn warn_about_option(word: &str, value: Option<&String>) -> (warning: Option<String>)
    ensures
        match warning {
            Some(text) => option_warnings(word@, value_view(value)) == seq![text@],
            None => option_warnings(word@, value_view(value)) == Seq::<Seq<char>>::empty(),
        },
{
    let text = match value {
        Some(text) => text.as_str(),
        None => {
            return None;
        },
    };
    if same_text(word, "--capture-backend") {
        if same_text(text, "dxgi") || same_text(text, "wgc") || same_text(text, "auto") {
            proof {
                reveal_strlit("--capture-backend");
                reveal_strlit("--sfu");
                assert("--capture-backend"@.len() != "--sfu"@.len());
            }
            None
        } else {
            Some(join("warning: unknown --capture-backend '", text).concat("', using auto"))
        }
    } else if same_text(word, "--sfu") && !same_text(text, "mesh") && !same_text(text, "direct") {
        Some(join("warning: unknown --sfu '", text).concat("', using direct"))
    } else {
        None
    }
}

/// Reads the command line, without the name of the program in front: the
/// settings, and warnings about what could not be understood.
pub fn parse_args(words: &Vec<String>) -> (parsed: (Args, Vec<String>))
    ensures
        parsed.0@ == after_words(defaults(), views(words@)),
        views(parsed.1@) == warnings_about(views(words@)),
{
    let mut args = Args::default();
    let mut warnings: Vec<String> = Vec::new();
    let ghost all = views(words@);
    let mut i: usize = 0;
    proof {
        assert(all.skip(0) =~= all);
        assert(views(warnings@) =~= Seq::<Seq<char>>::empty());
        assert(views(warnings@) + warnings_about(all) =~= warnings_about(all));
    }
    while i < words.len()
        invariant
            i <= words@.len(),
            all == views(words@),
            after_words(args@, all.skip(i as int)) == after_words(defaults(), all),
            views(warnings@) + warnings_about(all.skip(i as int)) == warnings_about(all),
        decreases words@.len() - i,
    {
        let ghost rest = all.skip(i as int);
        let ghost said = views(warnings@);
        let word = words[i].as_str();
        assert(rest[0] == word@);
        if is_value_option(word) {
            let value = if words.len() - i > 1 {
                Some(&words[i + 1])
            } else {
                None
            };
            assert(value_view(value) == value_behind(rest));
            apply_option(&mut args, word, value);
            let ghost more = option_warnings(word@, value_behind(rest));
            match warn_about_option(word, value) {
                Some(text) => {
                    warnings.push(text);
                    assert(views(warnings@) =~= said + more);
                },
                None => {
                    assert(views(warnings@) =~= said + more);
                },
            }
            i = if words.len() - i > 1 {
                i + 2
            } else {
                words.len()
            };
            proof {
                assert(all.skip(i as int) =~= behind_option(rest));
                assert((said + more) + warnings_about(behind_option(rest)) =~= said + (more
                    + warnings_about(behind_option(rest))));
            }
        } else {
            let ghost more = word_warnings(word@);
            if same_text(word, "--headless") {
                args.headless = true;
                assert(views(warnings@) =~= said + more);
            } else {
                warnings.push(join("warning: ignoring unknown argument '", word).concat("'"));
                assert(views(warnings@) =~= said + more);
            }
            i = i + 1;
            proof {
                assert(all.skip(i as int) =~= rest.skip(1));
                assert((said + more) + warnings_about(rest.skip(1)) =~= said + (more
                    + warnings_about(rest.skip(1))));
            }
        }
    }
    proof {
        assert(all.skip(i as int) =~= Seq::<Seq<char>>::empty());
        assert(views(warnings@) + Seq::<Seq<char>>::empty() =~= views(warnings@));
    }
    (args, warnings)
}

/// What the settings ask to capture: a window if one is given, or else a
/// monitor.
pub open spec fn source_of(args: ArgsView) -> CaptureSource {
    match args.window_hwnd {
        Some(hwnd) => CaptureSource::Window { hwnd },
        None => CaptureSource::Monitor {
            adapter_index: args.adapter_index,
            output_index: args.output_index,
        },
    }
}

impl Args {
    /// What the settings ask to capture.
    pub fn source(&self) -> (source: CaptureSource)
        ensures
            source == source_of(self@),
    {
        match self.window_hwnd {
            Some(hwnd) => CaptureSource::Window { hwnd },
            None => CaptureSource::Monitor {
                adapter_index: self.adapter_index,
                output_index: self.output_index,
            },
        }
    }
}

/// Whether to stream right away, without the GUI: if the settings say so, or
/// for a one-shot check of the color data.
pub fn runs_headless(args: &Args, debug_dump: bool) -> (headless: bool)
    ensures
        headless == (args.headless || debug_dump),
{
    args.headless || debug_dump
}

// ---------------------------------------------------------------------
// Laws
// ---------------------------------------------------------------------

/// No argument changes the server or the token, and without arguments every
/// setting has its default.
pub proof fn law_command_line_keeps_the_server(args: ArgsView, words: Seq<Seq<char>>)
    ensures
        after_words(args, words).backend_url == args.backend_url,
        after_words(args, words).host_token == args.host_token,
        args.headless ==> after_words(args, words).headless,
        after_words(args, Seq::empty()) == args,
    decreases words.len(),
{
    if words.len() > 0 {
        if takes_value(words[0]) {
            law_command_line_keeps_the_server(
                after_option(args, words[0], value_behind(words)),
                behind_option(words),
            );
        } else {
            law_command_line_keeps_the_server(after_word(args, words[0]), words.skip(1));
        }
    }
}

/// Arguments that come later are applied to what the earlier ones made, so
/// of two values for a setting the later one counts. This holds wherever the
/// earlier ones do not end in an option that lacks its value.
pub proof fn law_later_arguments_count(args: ArgsView, earlier: Seq<Seq<char>>, later: Seq<
    Seq<char>,
>)
    requires
        complete(earlier),
    ensures
        after_words(args, earlier + later) == after_words(after_words(args, earlier), later),
        warnings_about(earlier + later) == warnings_about(earlier) + warnings_about(later),
    decreases earlier.len(),
{
    let all = earlier + later;
    if earlier.len() == 0 {
        assert(all =~= later);
        assert(warnings_about(earlier) + warnings_about(later) =~= warnings_about(later));
    } else {
        assert(all[0] == earlier[0]);
        if takes_value(earlier[0]) {
            assert(all[1] == earlier[1]);
            assert(behind_option(all) =~= behind_option(earlier) + later);
            let next = after_option(args, earlier[0], value_behind(earlier));
            law_later_arguments_count(next, behind_option(earlier), later);
            let said = option_warnings(earlier[0], value_behind(earlier));
            assert((said + warnings_about(behind_option(earlier))) + warnings_about(later) =~= said
                + (warnings_about(behind_option(earlier)) + warnings_about(later)));
        } else {
            assert(all.skip(1) =~= earlier.skip(1) + later);
            law_later_arguments_count(after_word(args, earlier[0]), earlier.skip(1), later);
            let said = word_warnings(earlier[0]);
            assert((said + warnings_about(earlier.skip(1))) + warnings_about(later) =~= said + (
            warnings_about(earlier.skip(1)) + warnings_about(later)));
        }
    }
}

/// Whether every option among the arguments has its value.
pub open spec fn complete(words: Seq<Seq<char>>) -> bool
    decreases words.len(),
{
    if words.len() == 0 {
        true
    } else if takes_value(words[0]) {
        words.len() > 1 && complete(words.skip(2))
    } else {
        complete(words.skip(1))
    }
}

proof fn lemma_option_names()
    ensures
        "--fps"@.len() == 5 && "--sfu"@.len() == 5 && "--fps"@ != "--sfu"@,
        "--port"@.len() == 6,
        "--output"@.len() == 8 && "--window"@.len() == 8 && "--output"@ != "--window"@,
        "--bitrate"@.len() == 9 && "--adapter"@.len() == 9 && "--bitrate"@ != "--adapter"@,
        "--headless"@.len() == 10,
        "--public-host"@.len() == 13 && "--stun-server"@.len() == 13 && "--public-host"@
            != "--stun-server"@,
        "--capture-backend"@.len() == 17,
{
    reveal_strlit("--fps");
    reveal_strlit("--sfu");
    reveal_strlit("--port");
    reveal_strlit("--output");
    reveal_strlit("--window");
    reveal_strlit("--bitrate");
    reveal_strlit("--adapter");
    reveal_strlit("--headless");
    reveal_strlit("--public-host");
    reveal_strlit("--stun-server");
    reveal_strlit("--capture-backend");
    assert("--fps"@[2] != "--sfu"@[2]);
    assert("--output"@[2] != "--window"@[2]);
    assert("--bitrate"@[2] != "--adapter"@[2]);
    assert("--public-host"@[2] != "--stun-server"@[2]);
}

/// An option and its value behind complete arguments apply to what those
/// made.
proof fn lemma_option_behind(args: ArgsView, earlier: Seq<Seq<char>>, word: Seq<char>, value: Seq<
    char,
>)
    requires
        complete(earlier),
        takes_value(word),
    ensures
        after_words(args, earlier + seq![word, value]) == after_option(
            after_words(args, earlier),
            word,
            Some(value),
        ),
        warnings_about(earlier + seq![word, value]) == warnings_about(earlier) + option_warnings(
            word,
            Some(value),
        ),
{
    let later = seq![word, value];
    law_later_arguments_count(args, earlier, later);
    reveal_with_fuel(after_words, 2);
    reveal_with_fuel(warnings_about, 2);
    assert(behind_option(later) =~= Seq::<Seq<char>>::empty());
    let said = option_warnings(word, Some(value));
    assert(said + Seq::<Seq<char>>::empty() =~= said);
    assert(warnings_about(later) == said);
}

/// Whether some words are others, then an option and its value.
pub open spec fn with_option(
    words: Seq<String>,
    earlier: Seq<String>,
    word: Seq<char>,
    value: Seq<char>,
) -> bool {
    views(words) == views(earlier) + seq![word, value]
}

/// A number behind an option is what the option's setting becomes, whatever
/// came before, and no other setting changes.
pub proof fn law_number_options(
    earlier: Vec<String>,
    before: (Args, Vec<String>),
    n: u32,
    port: u16,
    hwnd: isize,
    words: (Vec<String>, Vec<String>, Vec<String>, Vec<String>, Vec<String>, Vec<String>),
    fps: (Args, Vec<String>),
    bitrate: (Args, Vec<String>),
    adapter: (Args, Vec<String>),
    output: (Args, Vec<String>),
    at_port: (Args, Vec<String>),
    window: (Args, Vec<String>),
)
    requires
        complete(views(earlier@)),
        call_ensures(parse_args, (&earlier,), before),
        with_option(words.0@, earlier@, "--fps"@, decimal(n as nat)),
        with_option(words.1@, earlier@, "--bitrate"@, decimal(n as nat)),
        with_option(words.2@, earlier@, "--adapter"@, decimal(n as nat)),
        with_option(words.3@, earlier@, "--output"@, decimal(n as nat)),
        with_option(words.4@, earlier@, "--port"@, decimal(port as nat)),
        with_option(words.5@, earlier@, "--window"@, signed_decimal(hwnd as int)),
        call_ensures(parse_args, (&words.0,), fps),
        call_ensures(parse_args, (&words.1,), bitrate),
        call_ensures(parse_args, (&words.2,), adapter),
        call_ensures(parse_args, (&words.3,), output),
        call_ensures(parse_args, (&words.4,), at_port),
        call_ensures(parse_args, (&words.5,), window),
    ensures
        fps.0@ == (ArgsView { fps: n, ..before.0@ }),
        bitrate.0@ == (ArgsView { bitrate_bps: n, ..before.0@ }),
        adapter.0@ == (ArgsView { adapter_index: n, ..before.0@ }),
        output.0@ == (ArgsView { output_index: n, ..before.0@ }),
        at_port.0@ == (ArgsView { port, ..before.0@ }),
        window.0@ == (ArgsView { window_hwnd: Some(hwnd), ..before.0@ }),
        views(fps.1@) == views(before.1@),
        views(bitrate.1@) == views(before.1@),
        views(adapter.1@) == views(before.1@),
        views(output.1@) == views(before.1@),
        views(at_port.1@) == views(before.1@),
        views(window.1@) == views(before.1@),
{
    let e = views(earlier@);
    lemma_option_names();
    lemma_decimal_reads_back(n as nat);
    lemma_decimal_reads_back(port as nat);
    lemma_signed_decimal_reads_back(hwnd as int);
    lemma_option_behind(defaults(), e, "--fps"@, decimal(n as nat));
    lemma_option_behind(defaults(), e, "--bitrate"@, decimal(n as nat));
    lemma_option_behind(defaults(), e, "--adapter"@, decimal(n as nat));
    lemma_option_behind(defaults(), e, "--output"@, decimal(n as nat));
    lemma_option_behind(defaults(), e, "--port"@, decimal(port as nat));
    lemma_option_behind(defaults(), e, "--window"@, signed_decimal(hwnd as int));
    let said = warnings_about(e);
    assert(said + Seq::<Seq<char>>::empty() =~= said);
}

/// A text behind an option: hosts are taken as they are; of the capture APIs
/// `dxgi` and `wgc` are known and anything else is automatic, with a warning
/// unless it is `auto`; of the modes `mesh` is known and anything else is
/// direct, with a warning unless it is `direct`.
pub proof fn law_text_options(
    earlier: Vec<String>,
    before: (Args, Vec<String>),
    text: Seq<char>,
    words: (Vec<String>, Vec<String>, Vec<String>, Vec<String>),
    public_host: (Args, Vec<String>),
    stun_server: (Args, Vec<String>),
    backend: (Args, Vec<String>),
    sfu: (Args, Vec<String>),
)
    requires
        complete(views(earlier@)),
        call_ensures(parse_args, (&earlier,), before),
        with_option(words.0@, earlier@, "--public-host"@, text),
        with_option(words.1@, earlier@, "--stun-server"@, text),
        with_option(words.2@, earlier@, "--capture-backend"@, text),
        with_option(words.3@, earlier@, "--sfu"@, text),
        call_ensures(parse_args, (&words.0,), public_host),
        call_ensures(parse_args, (&words.1,), stun_server),
        call_ensures(parse_args, (&words.2,), backend),
        call_ensures(parse_args, (&words.3,), sfu),
    ensures
        public_host.0@ == (ArgsView { public_host: text, ..before.0@ }),
        stun_server.0@ == (ArgsView { stun_server: text, ..before.0@ }),
        backend.0@ == (ArgsView { capture_backend: backend.0.capture_backend, ..before.0@ }),
        backend.0.capture_backend is ForceDxgi <==> text == "dxgi"@,
        backend.0.capture_backend is ForceWgc <==> text == "wgc"@,
        sfu.0@ == (ArgsView { sfu: sfu.0.sfu, ..before.0@ }),
        sfu.0.sfu is Mesh <==> text == "mesh"@,
        views(public_host.1@) == views(before.1@),
        views(stun_server.1@) == views(before.1@),
        backend.1@.len() - before.1@.len() == if text == "dxgi"@ || text == "wgc"@ || text
            == "auto"@ {
            0int
        } else {
            1
        },
        sfu.1@.len() - before.1@.len() == if text == "mesh"@ || text == "direct"@ {
            0int
        } else {
            1
        },
{
    let e = views(earlier@);
    lemma_option_names();
    reveal_strlit("dxgi");
    reveal_strlit("wgc");
    assert("dxgi"@.len() != "wgc"@.len());
    lemma_option_behind(defaults(), e, "--public-host"@, text);
    lemma_option_behind(defaults(), e, "--stun-server"@, text);
    lemma_option_behind(defaults(), e, "--capture-backend"@, text);
    lemma_option_behind(defaults(), e, "--sfu"@, text);
    let said = warnings_about(e);
    assert(said + Seq::<Seq<char>>::empty() =~= said);
    assert(views(backend.1@).len() == backend.1@.len());
    assert(views(sfu.1@).len() == sfu.1@.len());
    assert(views(before.1@).len() == before.1@.len());
}

/// A value that is no number leaves the frame rate, the bitrate and the port
/// as they are, and puts the monitor back to the first and the window to
/// none.
pub proof fn law_unreadable_numbers(
    earlier: Vec<String>,
    before: (Args, Vec<String>),
    text: Seq<char>,
    words: (Vec<String>, Vec<String>, Vec<String>, Vec<String>, Vec<String>, Vec<String>),
    fps: (Args, Vec<String>),
    bitrate: (Args, Vec<String>),
    adapter: (Args, Vec<String>),
    output: (Args, Vec<String>),
    at_port: (Args, Vec<String>),
    window: (Args, Vec<String>),
)
    requires
        complete(views(earlier@)),
        unsigned_up_to(text, u32::MAX as int) is None,
        unsigned_up_to(text, u16::MAX as int) is None,
        signed_within(text, isize::MIN as int, isize::MAX as int) is None,
        call_ensures(parse_args, (&earlier,), before),
        with_option(words.0@, earlier@, "--fps"@, text),
        with_option(words.1@, earlier@, "--bitrate"@, text),
        with_option(words.2@, earlier@, "--adapter"@, text),
        with_option(words.3@, earlier@, "--output"@, text),
        with_option(words.4@, earlier@, "--port"@, text),
        with_option(words.5@, earlier@, "--window"@, text),
        call_ensures(parse_args, (&words.0,), fps),
        call_ensures(parse_args, (&words.1,), bitrate),
        call_ensures(parse_args, (&words.2,), adapter),
        call_ensures(parse_args, (&words.3,), output),
        call_ensures(parse_args, (&words.4,), at_port),
        call_ensures(parse_args, (&words.5,), window),
    ensures
        fps.0@ == before.0@,
        bitrate.0@ == before.0@,
        adapter.0@ == (ArgsView { adapter_index: 0, ..before.0@ }),
        output.0@ == (ArgsView { output_index: 0, ..before.0@ }),
        at_port.0@ == before.0@,
        window.0@ == (ArgsView { window_hwnd: None, ..before.0@ }),
{
    let e = views(earlier@);
    lemma_option_names();
    lemma_option_behind(defaults(), e, "--fps"@, text);
    lemma_option_behind(defaults(), e, "--bitrate"@, text);
    lemma_option_behind(defaults(), e, "--adapter"@, text);
    lemma_option_behind(defaults(), e, "--output"@, text);
    lemma_option_behind(defaults(), e, "--port"@, text);
    lemma_option_behind(defaults(), e, "--window"@, text);
}

/// `--headless` starts without the GUI and says nothing; any other word that
/// is no option changes nothing, and is warned about.
pub proof fn law_lone_words(
    earlier: Vec<String>,
    before: (Args, Vec<String>),
    word: Seq<char>,
    words: Vec<String>,
    parsed: (Args, Vec<String>),
)
    requires
        complete(views(earlier@)),
        !takes_value(word),
        views(words@) == views(earlier@).push(word),
        call_ensures(parse_args, (&earlier,), before),
        call_ensures(parse_args, (&words,), parsed),
    ensures
        word == "--headless"@ ==> parsed.0@ == (ArgsView { headless: true, ..before.0@ })
            && views(parsed.1@) == views(before.1@),
        word != "--headless"@ ==> parsed.0@ == before.0@ && parsed.1@.len() == before.1@.len() + 1,
{
    let e = views(earlier@);
    let later = seq![word];
    assert(views(words@) =~= e + later);
    law_later_arguments_count(defaults(), e, later);
    reveal_with_fuel(after_words, 2);
    reveal_with_fuel(warnings_about, 2);
    assert(later.skip(1) =~= Seq::<Seq<char>>::empty());
    let said = word_warnings(word);
    assert(said + Seq::<Seq<char>>::empty() =~= said);
    assert(warnings_about(later) == said);
    assert(warnings_about(e) + Seq::<Seq<char>>::empty() =~= warnings_about(e));
    assert(views(parsed.1@).len() == parsed.1@.len());
    assert(views(before.1@).len() == before.1@.len());
}

/// Without arguments: 60 frames per second at 20 million bits per second, of
/// the first monitor with whichever API works, over the mesh, with the GUI.
pub proof fn law_defaults(args: Args, words: Vec<String>, parsed: (Args, Vec<String>))
    requires
        call_ensures(<Args as Default>::default, (), args),
        words@.len() == 0,
        call_ensures(parse_args, (&words,), parsed),
    ensures
        args.fps == 60,
        args.bitrate_bps == 20 * 1_000_000,
        args.port == 8787,
        args.adapter_index == 0 && args.output_index == 0 && args.window_hwnd is None,
        args.capture_backend is Auto,
        args.sfu is Mesh,
        !args.headless,
        args.host_token@.len() == 0,
        args.backend_url@ == "https://framewire.hinodeent.com"@,
        args.public_host@ == "127.0.0.1"@,
        args.stun_server@ == "stun.l.google.com:19302"@,
        parsed.0@ == args@,
        parsed.1@.len() == 0,
{
    reveal_strlit("");
    assert(views(words@) =~= Seq::<Seq<char>>::empty());
    assert(views(parsed.1@).len() == parsed.1@.len());
}

/// A window is captured exactly if one is named, and otherwise the monitor
/// that is named.
pub proof fn law_source(args: Args, source: CaptureSource, debug_dump: bool, headless: bool)
    requires
        call_ensures(Args::source, (&args,), source),
        call_ensures(runs_headless, (&args, debug_dump), headless),
    ensures
        source is Window <==> args.window_hwnd is Some,
        source matches CaptureSource::Window { hwnd } ==> args.window_hwnd == Some(hwnd),
        source matches CaptureSource::Monitor { adapter_index, output_index } ==> adapter_index
            == args.adapter_index && output_index == args.output_index,
        !headless <==> !args.headless && !debug_dump,
{
}

/// An option at the very end, without its value: the frame rate, the bitrate,
/// the port and the hosts stay, the monitor goes back to the first, the
/// window to none, the API to automatic and the mode to direct. Nothing is
/// said about it.
pub proof fn law_option_without_a_value(
    earlier: Vec<String>,
    before: (Args, Vec<String>),
    word: Seq<char>,
    words: Vec<String>,
    parsed: (Args, Vec<String>),
)
    requires
        complete(views(earlier@)),
        takes_value(word),
        views(words@) == views(earlier@).push(word),
        call_ensures(parse_args, (&earlier,), before),
        call_ensures(parse_args, (&words,), parsed),
    ensures
        word == "--fps"@ || word == "--bitrate"@ || word == "--port"@ || word == "--public-host"@
            || word == "--stun-server"@ ==> parsed.0@ == before.0@,
        word == "--adapter"@ ==> parsed.0@ == (ArgsView { adapter_index: 0, ..before.0@ }),
        word == "--output"@ ==> parsed.0@ == (ArgsView { output_index: 0, ..before.0@ }),
        word == "--window"@ ==> parsed.0@ == (ArgsView { window_hwnd: None, ..before.0@ }),
        word == "--capture-backend"@ ==> parsed.0@ == (ArgsView {
            capture_backend: Backend::Auto,
            ..before.0@
        }),
        word == "--sfu"@ ==> parsed.0@ == (ArgsView { sfu: SfuMode::Direct, ..before.0@ }),
        views(parsed.1@) == views(before.1@),
{
    let e = views(earlier@);
    let later = seq![word];
    assert(views(words@) =~= e + later);
    law_later_arguments_count(defaults(), e, later);
    lemma_option_names();
    reveal_with_fuel(after_words, 2);
    reveal_with_fuel(warnings_about, 2);
    assert(warnings_about(later) =~= Seq::<Seq<char>>::empty());
    assert(warnings_about(e) + Seq::<Seq<char>>::empty() =~= warnings_about(e));
}

/// Whether `text` stands somewhere within `whole`, with more on both sides.
pub open spec fn quotes(whole: Seq<char>, text: Seq<char>) -> bool {
    exists|before: Seq<char>, after: Seq<char>|
        before.len() > 0 && after.len() > 0 && whole == #[trigger] (before + text + after)
}

/// A warning quotes what it is about: the value that is not known, or the
/// argument that is ignored.
pub proof fn law_warnings_quote(
    earlier: Vec<String>,
    before: (Args, Vec<String>),
    text: Seq<char>,
    words: (Vec<String>, Vec<String>, Vec<String>),
    backend: (Args, Vec<String>),
    sfu: (Args, Vec<String>),
    lone: (Args, Vec<String>),
)
    requires
        complete(views(earlier@)),
        call_ensures(parse_args, (&earlier,), before),
        with_option(words.0@, earlier@, "--capture-backend"@, text),
        with_option(words.1@, earlier@, "--sfu"@, text),
        views(words.2@) == views(earlier@).push(text),
        !takes_value(text),
        call_ensures(parse_args, (&words.0,), backend),
        call_ensures(parse_args, (&words.1,), sfu),
        call_ensures(parse_args, (&words.2,), lone),
    ensures
        backend.1@.len() > before.1@.len() ==> quotes(backend.1@.last()@, text),
        sfu.1@.len() > before.1@.len() ==> quotes(sfu.1@.last()@, text),
        lone.1@.len() > before.1@.len() ==> quotes(lone.1@.last()@, text),
{
    let e = views(earlier@);
    let said = warnings_about(e);
    lemma_option_names();
    lemma_option_behind(defaults(), e, "--capture-backend"@, text);
    lemma_option_behind(defaults(), e, "--sfu"@, text);
    let later = seq![text];
    assert(views(words.2@) =~= e + later);
    law_later_arguments_count(defaults(), e, later);
    reveal_with_fuel(warnings_about, 2);
    assert(later.skip(1) =~= Seq::<Seq<char>>::empty());
    assert(word_warnings(text) + Seq::<Seq<char>>::empty() =~= word_warnings(text));
    assert(said + Seq::<Seq<char>>::empty() =~= said);
    assert(views(backend.1@).len() == backend.1@.len() && views(sfu.1@).len() == sfu.1@.len());
    assert(views(lone.1@).len() == lone.1@.len() && views(before.1@).len() == before.1@.len());
    reveal_strlit("warning: unknown --capture-backend '");
    reveal_strlit("', using auto");
    reveal_strlit("warning: unknown --sfu '");
    reveal_strlit("', using direct");
    reveal_strlit("warning: ignoring unknown argument '");
    reveal_strlit("'");
    if backend.1@.len() > before.1@.len() {
        assert(backend.1@.last()@ == views(backend.1@).last());
        assert(backend.1@.last()@ == "warning: unknown --capture-backend '"@ + text
            + "', using auto"@);
    }
    if sfu.1@.len() > before.1@.len() {
        assert(sfu.1@.last()@ == views(sfu.1@).last());
        assert(sfu.1@.last()@ == "warning: unknown --sfu '"@ + text + "', using direct"@);
    }
    if lone.1@.len() > before.1@.len() {
        assert(lone.1@.last()@ == views(lone.1@).last());
        assert(lone.1@.last()@ == "warning: ignoring unknown argument '"@ + text + "'"@);
    }
}

} // verus!
