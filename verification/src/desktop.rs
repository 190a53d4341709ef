//! Desktop-environment handling: which environment a session name denotes and
//! the exact command lines that install or query a wallpaper on each. The
//! commands are built here and proved character-exact; running them is the
//! caller's task, as is reading the environment.

use crate::schedule::FlowyError;
use crate::text::{
    contains_seq, contains_substr, is_prefix, is_space, remove_char, starts_with_str, str_eq,
    strip_prefix_str, trim_spaces, trimmed, views_of,
};
use vstd::prelude::*;

verus! {

/// What enquote's escaping makes of one character: quotes and backslashes get
/// a backslash in front, everything else stands as it is.
pub open spec fn escaped_char(q: char, c: char) -> Seq<char> {
    if c == q {
        seq!['\\', q]
    } else if c == '\\' {
        seq!['\\', '\\']
    } else {
        seq![c]
    }
}

/// enquote's escaping, character by character.
pub open spec fn escaped(q: char, s: Seq<char>) -> Seq<char>
    decreases s.len(),
{
    if s.len() == 0 {
        Seq::empty()
    } else {
        escaped_char(q, s[0]) + escaped(q, s.skip(1))
    }
}

/// A string wrapped in double quotes with its quotes and backslashes escaped.
pub open spec fn quoted(s: Seq<char>) -> Seq<char> {
    seq!['"'] + escaped('"', s) + seq!['"']
}

/// Wraps a string in double quotes, escaping as a shell-safe argument.
///
/// Relies on `enquote::enquote`: the result is the quote character, then the
/// input with every quote character and backslash preceded by a backslash,
/// then the quote character again.
#[verifier::external_body]
pub(crate) fn enquote_double(s: &str) -> (r: String)
    ensures
        r@ == quoted(s@),
{
    enquote::enquote('"', s)
}

/// The string `enquote::unquote` recovers from a quoted-and-escaped form; a
/// function of the input alone, unspecified on inputs unquote rejects.
pub uninterp spec fn unquoted(s: Seq<char>) -> Seq<char>;

/// Strips the surrounding quotes from a quoted string and undoes the escapes.
///
/// Relies on `enquote::unquote`: its result depends only on the input; it
/// rejects any input shorter than two characters; and on the exact output of
/// the library's own quoting it succeeds and recovers the original string —
/// the source shows that every backslash and quote the escaping inserts is
/// undone and nothing else is treated as an escape.
#[verifier::external_body]
pub(crate) fn unquote_str(s: &str) -> (r: Option<String>)
    ensures
        r matches Some(u) ==> u@ == unquoted(s@),
        s@.len() < 2 ==> r is None,
        r is None ==> (forall|orig: Seq<char>| s@ != #[trigger] quoted(orig)),
        r matches Some(u) ==> (forall|orig: Seq<char>|
            s@ == #[trigger] quoted(orig) ==> u@ == orig),
{
    match enquote::unquote(s) {
        Ok(u) => Some(u),
        Err(_) => None,
    }
}

/// A desktop environment with a known way to change the wallpaper.
#[derive(Debug, Copy, Clone, Eq, PartialEq, Structural)]
pub enum DesktopEnvt {
    GNOME,
    Cinnamon,
    MATE,
    XFCE,
    Deepin,
    KDE,
    BSPWM,
}

/// Implemented by the platform back-ends that install and read wallpapers.
/// Detecting the environment, running the commands and touching the session
/// are all effects, so the library declares the surface and leaves the
/// implementations to its callers.
pub trait Desktop: Sized {
    /// Detects the desktop environment of the running session.
    fn new() -> Result<Self, FlowyError>;

    /// Installs the image at `path` as the wallpaper of every screen.
    fn set_wallpaper(&self, path: &str) -> Result<(), FlowyError>;

    /// The path of the image currently installed as the wallpaper.
    fn get_wallpaper(&self) -> Result<String, FlowyError>;
}

/// The session name belongs to the GNOME family.
pub open spec fn gnome_compliant(name: Seq<char>) -> bool {
    contains_seq(name, "GNOME"@) || name == "Unity"@ || name == "Pantheon"@
}

/// Decides whether a session name belongs to the GNOME family: it mentions
/// GNOME, or is one of the desktops that drive the same settings daemon.
pub fn is_gnome_compliant(desktop: &str) -> (r: bool)
    ensures
        r == gnome_compliant(desktop@),
{
    contains_substr(desktop, "GNOME") || str_eq(desktop, "Unity") || str_eq(desktop, "Pantheon")
}

/// The desktop environment a session name denotes, if a supported one.
pub open spec fn spec_desktop_of(name: Seq<char>) -> Option<DesktopEnvt> {
    if gnome_compliant(name) {
        Some(DesktopEnvt::GNOME)
    } else if name == "X-Cinnamon"@ {
        Some(DesktopEnvt::Cinnamon)
    } else if name == "MATE"@ {
        Some(DesktopEnvt::MATE)
    } else if name == "XFCE"@ {
        Some(DesktopEnvt::XFCE)
    } else if name == "Deepin"@ {
        Some(DesktopEnvt::Deepin)
    } else if name == "KDE"@ {
        Some(DesktopEnvt::KDE)
    } else if name == "bspwm"@ {
        Some(DesktopEnvt::BSPWM)
    } else {
        None
    }
}

impl DesktopEnvt {
    /// Maps a session name, as the session advertises it, to the desktop
    /// environment it denotes; `None` for an unsupported environment.
    pub fn from_desktop_name(name: &str) -> (r: Option<DesktopEnvt>)
        ensures
            r == spec_desktop_of(name@),
    {
        if is_gnome_compliant(name) {
            Some(DesktopEnvt::GNOME)
        } else if str_eq(name, "X-Cinnamon") {
            Some(DesktopEnvt::Cinnamon)
        } else if str_eq(name, "MATE") {
            Some(DesktopEnvt::MATE)
        } else if str_eq(name, "XFCE") {
            Some(DesktopEnvt::XFCE)
        } else if str_eq(name, "Deepin") {
            Some(DesktopEnvt::Deepin)
        } else if str_eq(name, "KDE") {
            Some(DesktopEnvt::KDE)
        } else if str_eq(name, "bspwm") {
            Some(DesktopEnvt::BSPWM)
        } else {
            None
        }
    }
}

/// The opening of the Plasma shell script that sets the wallpaper; the quoted
/// image path is spliced in after it.
pub open spec fn kde_script_prefix() -> Seq<char> {
    "\n                    const monitors = desktops()\n                    for (var i = 0; i < monitors.length; i++) {\n                        monitors[i].wallpaperPlugin = \"org.kde.image\"\n                        monitors[i].currentConfigGroup = [\"Wallpaper\"]\n                        monitors[i].writeConfig(\"Image\", "@
}

/// The closing of the Plasma shell script: the parenthesis of `writeConfig`
/// and the loop's closing brace.
pub open spec fn kde_script_suffix() -> Seq<char> {
    ")\n                    }"@
}

/// The program and arguments that install `path` as the wallpaper on this
/// desktop environment.
pub open spec fn spec_set_command(d: DesktopEnvt, path: Seq<char>) -> (Seq<char>, Seq<Seq<char>>) {
    match d {
        DesktopEnvt::GNOME => (
            "gsettings"@,
            seq!["set"@, "org.gnome.desktop.background"@, "picture-uri"@, quoted(path)],
        ),
        DesktopEnvt::Cinnamon => (
            "dconf"@,
            seq!["write"@, "/org/cinnamon/desktop/background/picture-uri"@, quoted(path)],
        ),
        DesktopEnvt::MATE => (
            "dconf"@,
            seq!["write"@, "/org/mate/desktop/background/picture-filename"@, path.skip(7)],
        ),
        DesktopEnvt::XFCE => (
            "xfconf-query"@,
            seq![
                "-c"@,
                "xfce4-desktop"@,
                "-p"@,
                "/backdrop/screen0/monitor0/workspace0/last-image"@,
                "-s"@,
                path.skip(7),
            ],
        ),
        DesktopEnvt::Deepin => (
            "dconf"@,
            seq!["write"@, "/com/deepin/wrap/gnome/desktop/background/picture-uri"@, quoted(path)],
        ),
        DesktopEnvt::KDE => (
            "qdbus"@,
            seq![
                "org.kde.plasmashell"@,
                "/PlasmaShell"@,
                "org.kde.PlasmaShell.evaluateScript"@,
                kde_script_prefix() + quoted(path) + kde_script_suffix(),
            ],
        ),
        DesktopEnvt::BSPWM => (
            "feh"@,
            seq!["--bg-fill"@, quoted(path).filter(|c: char| c != '"')],
        ),
    }
}

impl DesktopEnvt {
    /// Builds the command that installs `path` as the wallpaper: the program
    /// to run and its arguments, character for character. MATE and XFCE take
    /// the bare file path, so for them `path` must be a `file://` URI whose
    /// prefix can be dropped.
    pub fn set_wallpaper_command(&self, path: &str) -> (r: (String, Vec<String>))
        requires
            (*self == DesktopEnvt::MATE || *self == DesktopEnvt::XFCE) ==> is_prefix(
                "file://"@,
                path@,
            ),
        ensures
            r.0@ == spec_set_command(*self, path@).0,
            views_of(r.1@) == spec_set_command(*self, path@).1,
    {
        let mut args: Vec<String> = Vec::new();
        match self {
            DesktopEnvt::GNOME => {
                args.push(String::from_str("set"));
                args.push(String::from_str("org.gnome.desktop.background"));
                args.push(String::from_str("picture-uri"));
                args.push(enquote_double(path));
                proof {
                    assert(views_of(args@) =~= spec_set_command(*self, path@).1);
                }
                (String::from_str("gsettings"), args)
            },
            DesktopEnvt::Cinnamon => {
                args.push(String::from_str("write"));
                args.push(String::from_str("/org/cinnamon/desktop/background/picture-uri"));
                args.push(enquote_double(path));
                proof {
                    assert(views_of(args@) =~= spec_set_command(*self, path@).1);
                }
                (String::from_str("dconf"), args)
            },
            DesktopEnvt::MATE => {
                let bare = strip_file_uri(path);
                args.push(String::from_str("write"));
                args.push(String::from_str("/org/mate/desktop/background/picture-filename"));
                args.push(bare);
                proof {
                    assert(views_of(args@) =~= spec_set_command(*self, path@).1);
                }
                (String::from_str("dconf"), args)
            },
            DesktopEnvt::XFCE => {
                let bare = strip_file_uri(path);
                args.push(String::from_str("-c"));
                args.push(String::from_str("xfce4-desktop"));
                args.push(String::from_str("-p"));
                args.push(String::from_str("/backdrop/screen0/monitor0/workspace0/last-image"));
                args.push(String::from_str("-s"));
                args.push(bare);
                proof {
                    assert(views_of(args@) =~= spec_set_command(*self, path@).1);
                }
                (String::from_str("xfconf-query"), args)
            },
            DesktopEnvt::Deepin => {
                args.push(String::from_str("write"));
                args.push(
                    String::from_str("/com/deepin/wrap/gnome/desktop/background/picture-uri"),
                );
                args.push(enquote_double(path));
                proof {
                    assert(views_of(args@) =~= spec_set_command(*self, path@).1);
                }
                (String::from_str("dconf"), args)
            },
            DesktopEnvt::KDE => {
                args.push(String::from_str("org.kde.plasmashell"));
                args.push(String::from_str("/PlasmaShell"));
                args.push(String::from_str("org.kde.PlasmaShell.evaluateScript"));
                let mut script = String::from_str(
                    "\n                    const monitors = desktops()\n                    for (var i = 0; i < monitors.length; i++) {\n                        monitors[i].wallpaperPlugin = \"org.kde.image\"\n                        monitors[i].currentConfigGroup = [\"Wallpaper\"]\n                        monitors[i].writeConfig(\"Image\", ",
                );
                let q = enquote_double(path);
                script.append(q.as_str());
                script.append(")\n                    }");
                args.push(script);
                proof {
                    assert(views_of(args@) =~= spec_set_command(*self, path@).1);
                }
                (String::from_str("qdbus"), args)
            },
            DesktopEnvt::BSPWM => {
                let q = enquote_double(path);
                args.push(String::from_str("--bg-fill"));
                args.push(remove_char(q.as_str(), '"'));
                proof {
                    assert(views_of(args@) =~= spec_set_command(*self, path@).1);
                }
                (String::from_str("feh"), args)
            },
        }
    }
}

/// Drops the `file://` prefix from a URI known to carry it.
fn strip_file_uri(path: &str) -> (r: String)
    requires
        is_prefix("file://"@, path@),
    ensures
        r@ == path@.skip(7),
{
    proof {
        reveal_strlit("file://");
    }
    match strip_prefix_str(path, "file://") {
        Some(bare) => bare,
        None => {
            proof {
                assert(false);
            }
            vstd::pervasive::unreached()
        },
    }
}

/// The program and arguments that print the current wallpaper's path on this
/// desktop environment; `None` on KDE, which is read from its configuration
/// file instead. On BSPWM the command reads the feh restore script under the
/// home directory of `user`.
pub open spec fn spec_get_command(d: DesktopEnvt, user: Seq<char>) -> Option<
    (Seq<char>, Seq<Seq<char>>),
> {
    match d {
        DesktopEnvt::GNOME => Some(
            ("gsettings"@, seq!["get"@, "org.gnome.desktop.background"@, "picture-uri"@]),
        ),
        DesktopEnvt::Cinnamon => Some(
            ("dconf"@, seq!["read"@, "/org/cinnamon/desktop/background/picture-uri"@]),
        ),
        DesktopEnvt::MATE => Some(
            ("dconf"@, seq!["read"@, "/org/mate/desktop/background/picture-filename"@]),
        ),
        DesktopEnvt::XFCE => Some(
            (
                "xfconf-query"@,
                seq![
                    "-c"@,
                    "xfce4-desktop"@,
                    "-p"@,
                    "/backdrop/screen0/monitor0/workspace0/last-image"@,
                ],
            ),
        ),
        DesktopEnvt::Deepin => Some(
            ("dconf"@, seq!["read"@, "/com/deepin/wrap/gnome/desktop/background/picture-uri"@]),
        ),
        DesktopEnvt::KDE => None,
        DesktopEnvt::BSPWM => Some(
            (
                "sed"@,
                seq![
                    "-n"@,
                    "'s/feh.*\\('.*'\\)/\\1/gp'"@,
                    "/home/"@ + trimmed(user) + "/.fehbg"@,
                ],
            ),
        ),
    }
}

impl DesktopEnvt {
    /// Builds the command that prints the current wallpaper's path; `None` on
    /// KDE, whose wallpaper is read from its configuration file.
    pub fn get_wallpaper_command(&self, user: &str) -> (r: Option<(String, Vec<String>)>)
        ensures
            r is None <==> *self == DesktopEnvt::KDE,
            r matches Some(cmd) ==> {
                &&& spec_get_command(*self, user@) matches Some(sc)
                &&& cmd.0@ == sc.0
                &&& views_of(cmd.1@) == sc.1
            },
    {
        let mut args: Vec<String> = Vec::new();
        match self {
            DesktopEnvt::GNOME => {
                args.push(String::from_str("get"));
                args.push(String::from_str("org.gnome.desktop.background"));
                args.push(String::from_str("picture-uri"));
                proof {
                    assert(views_of(args@) =~= spec_get_command(*self, user@)->Some_0.1);
                }
                Some((String::from_str("gsettings"), args))
            },
            DesktopEnvt::Cinnamon => {
                args.push(String::from_str("read"));
                args.push(String::from_str("/org/cinnamon/desktop/background/picture-uri"));
                proof {
                    assert(views_of(args@) =~= spec_get_command(*self, user@)->Some_0.1);
                }
                Some((String::from_str("dconf"), args))
            },
            DesktopEnvt::MATE => {
                args.push(String::from_str("read"));
                args.push(String::from_str("/org/mate/desktop/background/picture-filename"));
                proof {
                    assert(views_of(args@) =~= spec_get_command(*self, user@)->Some_0.1);
                }
                Some((String::from_str("dconf"), args))
            },
            DesktopEnvt::XFCE => {
                args.push(String::from_str("-c"));
                args.push(String::from_str("xfce4-desktop"));
                args.push(String::from_str("-p"));
                args.push(String::from_str("/backdrop/screen0/monitor0/workspace0/last-image"));
                proof {
                    assert(views_of(args@) =~= spec_get_command(*self, user@)->Some_0.1);
                }
                Some((String::from_str("xfconf-query"), args))
            },
            DesktopEnvt::Deepin => {
                args.push(String::from_str("read"));
                args.push(
                    String::from_str("/com/deepin/wrap/gnome/desktop/background/picture-uri"),
                );
                proof {
                    assert(views_of(args@) =~= spec_get_command(*self, user@)->Some_0.1);
                }
                Some((String::from_str("dconf"), args))
            },
            DesktopEnvt::KDE => None,
            DesktopEnvt::BSPWM => {
                args.push(String::from_str("-n"));
                args.push(String::from_str("'s/feh.*\\('.*'\\)/\\1/gp'"));
                let mut home = String::from_str("/home/");
                let t = trim_spaces(user);
                home.append(t.as_str());
                home.append("/.fehbg");
                args.push(home);
                proof {
                    assert(views_of(args@) =~= spec_get_command(*self, user@)->Some_0.1);
                }
                Some((String::from_str("sed"), args))
            },
        }
    }
}

/// Undoes the quoting of a command's printed wallpaper path: surrounding
/// ASCII whitespace dropped, quotes and escapes removed. `None` when the
/// output is not a quoted string. An output that is exactly the library's
/// own quoting of a path, up to whitespace, yields that path back: reading
/// the wallpaper recovers what was installed.
pub fn parse_wallpaper_output(out: &str) -> (r: Option<String>)
    ensures
        r matches Some(u) ==> u@ == unquoted(trimmed(out@)),
        r is None ==> (forall|orig: Seq<char>| trimmed(out@) != #[trigger] quoted(orig)),
        r matches Some(u) ==> (forall|orig: Seq<char>|
            trimmed(out@) == #[trigger] quoted(orig) ==> u@ == orig),
{
    let t = trim_spaces(out);
    unquote_str(t.as_str())
}

/// What a `Image=` line of the Plasma configuration denotes: the text after
/// the key, trimmed, with a `file://` prefix dropped.
pub open spec fn kde_image_value(line: Seq<char>) -> Seq<char> {
    let rest = trimmed(line.skip(6));
    if is_prefix("file://"@, rest) {
        rest.skip(7)
    } else {
        rest
    }
}

/// Finds the wallpaper path in the lines of the Plasma desktop configuration:
/// the value of the first line that starts with `Image=`.
pub fn kde_image_from_lines(lines: &Vec<String>) -> (r: Option<String>)
    ensures
        r is Some <==> exists|k: int|
            0 <= k < lines@.len() && is_prefix("Image="@, #[trigger] lines@[k]@),
        r matches Some(v) ==> exists|k: int|
            {
                &&& 0 <= k < lines@.len()
                &&& is_prefix("Image="@, #[trigger] lines@[k]@)
                &&& v@ == kde_image_value(lines@[k]@)
                &&& forall|q: int| 0 <= q < k ==> !is_prefix("Image="@, #[trigger] lines@[q]@)
            },
{
    let mut i: usize = 0;
    while i < lines.len()
        invariant
            i <= lines@.len(),
            forall|q: int| 0 <= q < i ==> !is_prefix("Image="@, #[trigger] lines@[q]@),
        decreases lines@.len() - i,
    {
        if starts_with_str(&lines[i], "Image=") {
            proof {
                reveal_strlit("Image=");
            }
            let rest = match strip_prefix_str(&lines[i], "Image=") {
                Some(rest) => rest,
                None => {
                    proof {
                        assert(false);
                    }
                    vstd::pervasive::unreached()
                },
            };
            let t = trim_spaces(rest.as_str());
            proof {
                reveal_strlit("file://");
            }
            let v = match strip_prefix_str(t.as_str(), "file://") {
                Some(bare) => bare,
                None => t,
            };
            return Some(v);
        }
        i = i + 1;
    }
    None
}

/// The position right after the token that starts at `i`: the first position
/// at or after `i` holding ASCII whitespace, or the end.
pub open spec fn token_end(s: Seq<char>, i: int) -> int
    decreases s.len() - i,
{
    if i < 0 || i >= s.len() {
        s.len() as int
    } else if is_space(s[i]) {
        i
    } else {
        token_end(s, i + 1)
    }
}

proof fn lemma_token_end_bounds(s: Seq<char>, i: int)
    requires
        0 <= i <= s.len(),
    ensures
        i <= token_end(s, i) <= s.len(),
        i < s.len() && !is_space(s[i]) ==> token_end(s, i) >= i + 1,
    decreases s.len() - i,
{
    if i >= s.len() {
    } else if is_space(s[i]) {
    } else {
        lemma_token_end_bounds(s, i + 1);
    }
}

proof fn lemma_token_end_position(s: Seq<char>, i: int, j: int)
    requires
        0 <= i <= j <= s.len(),
        forall|k: int| i <= k < j ==> !is_space(#[trigger] s[k]),
        j < s.len() ==> is_space(s[j as int]),
    ensures
        token_end(s, i) == j,
    decreases s.len() - i,
{
    if i >= s.len() {
    } else if is_space(s[i]) {
        assert(i == j);
    } else {
        lemma_token_end_position(s, i + 1, j);
    }
}

/// The maximal runs of `s` free of ASCII whitespace, from position `i` on,
/// in order: what splitting on ASCII whitespace yields.
pub open spec fn tokens_from(s: Seq<char>, i: int) -> Seq<Seq<char>>
    decreases s.len() - i,
    via tokens_from_decreases
{
    if i < 0 || i >= s.len() {
        Seq::empty()
    } else if is_space(s[i]) {
        tokens_from(s, i + 1)
    } else {
        seq![s.subrange(i, token_end(s, i))] + tokens_from(s, token_end(s, i))
    }
}

#[via_fn]
proof fn tokens_from_decreases(s: Seq<char>, i: int) {
    if 0 <= i && i < s.len() && !is_space(s[i]) {
        lemma_token_end_bounds(s, i);
    }
}

/// Every other element, starting with the first.
pub open spec fn every_other(v: Seq<Seq<char>>) -> Seq<Seq<char>>
    decreases v.len(),
{
    if v.len() == 0 {
        Seq::empty()
    } else if v.len() == 1 {
        seq![v[0]]
    } else {
        seq![v[0]] + every_other(v.skip(2))
    }
}

/// Splits a string on ASCII whitespace into its tokens.
fn collect_tokens(out: &str) -> (r: Vec<String>)
    ensures
        views_of(r@) == tokens_from(out@, 0),
{
    let n = out.unicode_len();
    let mut toks: Vec<String> = Vec::new();
    proof {
        assert(views_of(toks@) =~= Seq::<Seq<char>>::empty());
    }
    let mut i: usize = 0;
    while i < n
        invariant
            i <= n,
            n == out@.len(),
            tokens_from(out@, 0) == views_of(toks@) + tokens_from(out@, i as int),
        decreases n - i,
    {
        let c = out.get_char(i);
        if c == ' ' || c == '\t' || c == '\n' || c == '\r' {
            i = i + 1;
        } else {
            let mut j: usize = i + 1;
            loop
                invariant
                    i < j <= n,
                    n == out@.len(),
                    !is_space(out@[i as int]),
                    forall|k: int| i <= k < j ==> !is_space(#[trigger] out@[k]),
                ensures
                    i < j <= n,
                    forall|k: int| i <= k < j ==> !is_space(#[trigger] out@[k]),
                    j < n ==> is_space(out@[j as int]),
                decreases n - j,
            {
                if j == n {
                    break;
                }
                let cj = out.get_char(j);
                if cj == ' ' || cj == '\t' || cj == '\n' || cj == '\r' {
                    break;
                }
                j = j + 1;
            }
            proof {
                lemma_token_end_position(out@, i as int, j as int);
            }
            let ghost old_toks = toks@;
            let tok = out.substring_char(i, j).to_owned();
            toks.push(tok);
            proof {
                assert(views_of(toks@) =~= views_of(old_toks).push(
                    out@.subrange(i as int, j as int),
                ));
                assert(views_of(old_toks).push(out@.subrange(i as int, j as int))
                    + tokens_from(out@, j as int) =~= views_of(old_toks) + tokens_from(
                    out@,
                    i as int,
                ));
            }
            i = j;
        }
    }
    proof {
        assert(views_of(toks@) =~= views_of(toks@) + tokens_from(out@, n as int));
    }
    toks
}

/// Keeps every other string, starting with the first.
fn take_every_other(v: &Vec<String>) -> (r: Vec<String>)
    ensures
        views_of(r@) == every_other(views_of(v@)),
{
    let n = v.len();
    let mut acc: Vec<String> = Vec::new();
    proof {
        assert(views_of(acc@) =~= Seq::<Seq<char>>::empty());
        assert(views_of(v@).skip(0) =~= views_of(v@));
    }
    let mut k: usize = 0;
    while k < n
        invariant
            k <= n,
            n == v@.len(),
            every_other(views_of(v@)) == views_of(acc@) + every_other(views_of(v@).skip(k as int)),
        decreases n - k,
    {
        let ghost old_acc = acc@;
        let ghost tv = views_of(v@);
        acc.push(v[k].clone());
        proof {
            assert(views_of(acc@) =~= views_of(old_acc).push(tv[k as int]));
            assert(tv.skip(k as int)[0] == tv[k as int]);
            if n - k >= 2 {
                assert(tv.skip(k as int).skip(2) =~= tv.skip(k + 2));
                assert(every_other(tv.skip(k as int)) =~= seq![tv[k as int]] + every_other(
                    tv.skip(k + 2),
                ));
            } else {
                assert(tv.skip(k as int).len() == 1);
                assert(every_other(tv.skip(k as int)) =~= seq![tv[k as int]]);
                assert(tv.skip(n as int) =~= Seq::<Seq<char>>::empty());
            }
            assert(views_of(old_acc) + seq![tv[k as int]] =~= views_of(acc@));
        }
        if n - k >= 2 {
            proof {
                assert(views_of(acc@) + every_other(tv.skip(k + 2)) =~= views_of(old_acc) + (
                seq![tv[k as int]] + every_other(tv.skip(k + 2))));
            }
            k = k + 2;
        } else {
            proof {
                assert(views_of(acc@) + every_other(tv.skip(n as int)) =~= views_of(old_acc)
                    + seq![tv[k as int]]);
            }
            k = n;
        }
    }
    proof {
        assert(views_of(v@).skip(n as int) =~= Seq::<Seq<char>>::empty());
        assert(views_of(acc@) + every_other(views_of(v@).skip(n as int)) =~= views_of(acc@));
    }
    acc
}

/// The wallpaper keys in a listing printed by the XFCE configuration query:
/// the key of every key-value pair whose key mentions `last-image`.
pub open spec fn spec_xfce_image_keys(out: Seq<char>) -> Seq<Seq<char>> {
    every_other(tokens_from(out, 0)).filter(|t: Seq<char>| contains_seq(t, "last-image"@))
}

/// Extracts from the XFCE configuration listing the keys whose wallpaper can
/// be set: the listing alternates keys and values, and only keys naming
/// `last-image` hold a wallpaper.
pub fn xfce_image_keys(out: &str) -> (r: Vec<String>)
    ensures
        views_of(r@) == spec_xfce_image_keys(out@),
{
    let ghost pred = |t: Seq<char>| contains_seq(t, "last-image"@);
    let toks = collect_tokens(out);
    let keys = take_every_other(&toks);
    let ghost kv = views_of(keys@);
    let mut r: Vec<String> = Vec::new();
    proof {
        reveal(Seq::filter);
        assert(kv.take(0) =~= Seq::<Seq<char>>::empty());
        assert(views_of(r@) =~= kv.take(0).filter(pred));
    }
    let mut i: usize = 0;
    while i < keys.len()
        invariant
            i <= keys@.len(),
            kv == views_of(keys@),
            views_of(r@) == kv.take(i as int).filter(|t: Seq<char>| contains_seq(
                t,
                "last-image"@,
            )),
        decreases keys@.len() - i,
    {
        let ghost old_r = r@;
        proof {
            reveal(Seq::filter);
            assert(kv.take(i + 1) =~= kv.take(i as int).push(kv[i as int]));
            assert(kv.take(i + 1).drop_last() =~= kv.take(i as int));
        }
        if contains_substr(&keys[i], "last-image") {
            r.push(keys[i].clone());
            proof {
                assert(views_of(r@) =~= views_of(old_r).push(kv[i as int]));
            }
        }
        i = i + 1;
    }
    proof {
        assert(kv.take(keys@.len() as int) =~= kv);
    }
    r
}

/// The command that sets one XFCE wallpaper key to the bare file path of a
/// `file://` URI.
pub fn xfce_set_command(key: &str, path: &str) -> (r: (String, Vec<String>))
    requires
        is_prefix("file://"@, path@),
    ensures
        r.0@ == "xfconf-query"@,
        views_of(r.1@) == seq![
            "-c"@,
            "xfce4-desktop"@,
            "-p"@,
            key@,
            "-s"@,
            path@.skip(7),
        ],
{
    let mut args: Vec<String> = Vec::new();
    args.push(String::from_str("-c"));
    args.push(String::from_str("xfce4-desktop"));
    args.push(String::from_str("-p"));
    args.push(key.to_owned());
    args.push(String::from_str("-s"));
    args.push(strip_file_uri(path));
    proof {
        assert(views_of(args@) =~= seq![
            "-c"@,
            "xfce4-desktop"@,
            "-p"@,
            key@,
            "-s"@,
            path@.skip(7),
        ]);
    }
    (String::from_str("xfconf-query"), args)
}

/// The command that lists the XFCE desktop keys with their values, for
/// finding every monitor's wallpaper key.
pub fn xfce_list_command() -> (r: (String, Vec<String>))
    ensures
        r.0@ == "xfconf-query"@,
        views_of(r.1@) == seq!["-c"@, "xfce4-desktop"@, "-p"@, "/backdrop/screen0"@, "-lv"@],
{
    let mut args: Vec<String> = Vec::new();
    args.push(String::from_str("-c"));
    args.push(String::from_str("xfce4-desktop"));
    args.push(String::from_str("-p"));
    args.push(String::from_str("/backdrop/screen0"));
    args.push(String::from_str("-lv"));
    proof {
        assert(views_of(args@) =~= seq![
            "-c"@,
            "xfce4-desktop"@,
            "-p"@,
            "/backdrop/screen0"@,
            "-lv"@,
        ]);
    }
    (String::from_str("xfconf-query"), args)
}

} // verus!
