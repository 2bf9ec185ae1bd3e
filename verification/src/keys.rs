//! Loading venue credentials, and refusing to load them carelessly.
//!
//! Two sources, in order: the environment, then a file you own and nobody else can read.
//! Never the watchlist config: that file is meant to be shareable, and a credential in it is
//! a credential in a screenshot.
//!
//! A key file that is group- or world-readable is refused outright rather than warned about.
//! A warning gets scrolled past.
use crate::list;
use crate::list::Duplicate;
use crate::text;
use vstd::prelude::*;

verus! {

/// Three octal digits behind a zero.
pub open spec fn octal_spec(mode: u32) -> Seq<char> {
    seq![
        '0',
        text::digit((mode / 64 % 8) as nat),
        text::digit((mode / 8 % 8) as nat),
        text::digit((mode % 8) as nat),
    ]
}

fn octal(mode: u32) -> (r: String)
    ensures
        r@ == octal_spec(mode),
{
    let mut r = String::new();
    r.push('0');
    r.push(text::digit_char(mode / 64 % 8));
    r.push(text::digit_char(mode / 8 % 8));
    r.push(text::digit_char(mode % 8));
    assert(r@ =~= octal_spec(mode));
    r
}

/// The permission bits of a file mode that are given to others than the owner.
pub open spec fn shared_bits(mode: u32) -> u32 {
    mode & 0o777 & 0o077
}

fn shared(mode: u32) -> (r: bool)
    ensures
        r == (shared_bits(mode) != 0),
{
    mode & 0o777 & 0o077 != 0
}

/// The permission bits of a file mode.
pub open spec fn permissions_spec(mode: u32) -> u32 {
    mode & 0o777
}

fn permissions(mode: u32) -> (r: u32)
    ensures
        r == permissions_spec(mode),
{
    mode & 0o777
}

/// What stands before and behind the first `c`.
pub open spec fn cut_at_spec(s: Seq<char>, c: char) -> Option<(Seq<char>, Seq<char>)> {
    let i = text::place_of(s, c, 0);
    if 0 <= i < s.len() {
        Some((s.take(i), s.skip(i + 1)))
    } else {
        None
    }
}

pub fn cut_at(s: &str, c: char) -> (r: Option<(String, String)>)
    ensures
        r.deep_view() == cut_at_spec(s@, c),
{
    let v = text::chars_of(s);
    let i: usize = text::find_char(&v, c, 0);
    if i < v.len() {
        assert(v@.subrange(0, i as int) =~= s@.take(i as int));
        assert(v@.subrange(i + 1, v@.len() as int) =~= s@.skip(i + 1));
        Some((text::slice_of(&v, 0, i), text::slice_of(&v, i + 1, v.len())))
    } else {
        None
    }
}

/// A text without a quote at both of its ends, where it has one there.
pub open spec fn unquoted_spec(s: Seq<char>, q: char) -> Seq<char> {
    if s.len() >= 2 && s[0] == q && s[s.len() - 1] == q {
        s.subrange(1, s.len() - 1)
    } else {
        s
    }
}

fn unquoted(s: &str, q: char) -> (r: String)
    ensures
        r@ == unquoted_spec(s@, q),
{
    let v = text::chars_of(s);
    if v.len() >= 2 && v[0] == q && v[v.len() - 1] == q {
        text::slice_of(&v, 1, v.len() - 1)
    } else {
        text::owned(s)
    }
}

/// A venue's key and secret.
#[derive(Debug)]
pub struct Credentials {
    pub key: String,
    pub secret: String,
}

/// What a [`Credentials`] holds.
pub struct CredentialsView {
    pub key: Seq<char>,
    pub secret: Seq<char>,
}

impl DeepView for Credentials {
    type V = CredentialsView;

    open spec fn deep_view(&self) -> CredentialsView {
        CredentialsView {
            key: self.key@,
            secret: self.secret@,
        }
    }
}

impl Duplicate for Credentials {
    fn dup(&self) -> (r: Credentials) {
        Credentials {
            key: text::owned(self.key.as_str()),
            secret: text::owned(self.secret.as_str()),
        }
    }
}

/// Why there are no credentials.
#[derive(Debug)]
pub enum KeyError {
    Missing(String),
    Unreadable(String),
    /// The path, and the permission bits it has.
    BadPermissions(String, u32),
    Malformed(String),
}

/// What a [`KeyError`] says.
#[allow(inconsistent_fields)]
pub enum KeyErrorView {
    Missing(Seq<char>),
    Unreadable(Seq<char>),
    BadPermissions(Seq<char>, u32),
    Malformed(Seq<char>),
}

impl DeepView for KeyError {
    type V = KeyErrorView;

    open spec fn deep_view(&self) -> KeyErrorView {
        match self {
            KeyError::Missing(a) => KeyErrorView::Missing(a@),
            KeyError::Unreadable(a) => KeyErrorView::Unreadable(a@),
            KeyError::BadPermissions(a, b) => KeyErrorView::BadPermissions(a@, *b),
            KeyError::Malformed(a) => KeyErrorView::Malformed(a@),
        }
    }
}

/// The reason in words.
pub open spec fn key_error_text_spec(e: KeyErrorView) -> Seq<char> {
    match e {
        KeyErrorView::Missing(m) => m,
        KeyErrorView::Unreadable(m) => m,
        KeyErrorView::BadPermissions(path, mode) => path
            + " is mode "@
            + octal_spec(mode)
            + "; others can read your credentials. Run: chmod 600 "@
            + path,
        KeyErrorView::Malformed(m) => m,
    }
}

fn key_error_text(e: &KeyError) -> (r: String)
    ensures
        r@ == key_error_text_spec(e.deep_view()),
{
    match e {
        KeyError::Missing(m) => text::owned(m.as_str()),
        KeyError::Unreadable(m) => text::owned(m.as_str()),
        KeyError::BadPermissions(path, mode) => {
            let mut line = text::owned(path.as_str());
            line.push_str(" is mode ");
            line.push_str(octal(*mode).as_str());
            line.push_str("; others can read your credentials. Run: chmod 600 ");
            line.push_str(path.as_str());
            line
        },
        KeyError::Malformed(m) => text::owned(m.as_str()),
    }
}

/// A path below another.
pub open spec fn under_spec(base: Seq<char>, part: Seq<char>) -> Seq<char> {
    if base == ""@ {
        part
    } else if text::ends(base, "/"@) {
        base + part
    } else {
        base + "/"@ + part
    }
}

fn under(base: &str, part: &str) -> (r: String)
    ensures
        r@ == under_spec(base@, part@),
{
    if text::same(base, "") {
        return text::owned(part);
    }
    if text::ends_with(base, "/") {
        let mut line = text::owned(base);
        line.push_str(part);
        return line;
    }
    let mut line2 = text::owned(base);
    line2.push_str("/");
    line2.push_str(part);
    line2
}

/// Where a venue's key file is, given `XDG_CONFIG_HOME` and `HOME`.
pub open spec fn default_key_path_spec(
    config_home: Option<Seq<char>>,
    home: Option<Seq<char>>,
    venue: Seq<char>,
) -> Seq<char> {
    let base = ""@;
    let found = false;
    let (base, found) = match config_home {
        Some(v) => if text::trim(v) != ""@ {
            (v, true)
        } else {
            (base, found)
        },
        None => (base, found),
    };
    let base = if !found {
        match home {
            Some(h) => under_spec(h, ".config"@),
            None => "./.config"@,
        }
    } else {
        base
    };
    under_spec(under_spec(base, "rungbot"@), venue + ".env"@)
}

/// Where a venue's key file is, given `XDG_CONFIG_HOME` and `HOME`.
pub fn default_key_path(config_home: Option<&str>, home: Option<&str>, venue: &str) -> (r: String)
    ensures
        r@ == default_key_path_spec(config_home.deep_view(), home.deep_view(), venue@),
{
    let mut base = text::owned("");
    let mut found = false;
    match config_home {
        Some(v) => {
            if !text::same(text::trimmed(v).as_str(), "") {
                base = text::owned(v);
                found = true;
            }
        },
        None => {},
    }
    if !found {
        match home {
            Some(h) => {
                base = under(h, ".config");
            },
            None => {
                base = text::owned("./.config");
            },
        }
    }
    let mut line = text::owned(venue);
    line.push_str(".env");
    under(under(base.as_str(), "rungbot").as_str(), line.as_str())
}

/// The settings with those of one more line.
pub open spec fn add_line_spec(
    vars: Seq<(Seq<char>, Seq<char>)>,
    raw: Seq<char>,
) -> Seq<(Seq<char>, Seq<char>)> {
    let line = text::trim(raw);
    if line == ""@ || text::begins(line, "#"@) {
        vars
    } else {
        match cut_at_spec(line, '=') {
            Some(kv) => {
                let value = unquoted_spec(unquoted_spec(text::trim(kv.1), '"'), '\'');
                vars.push((text::upper_case(text::trim(kv.0)), value))
            },
            None => vars,
        }
    }
}

fn add_line(vars: Vec<(String, String)>, raw: &str) -> (r: Vec<(String, String)>)
    ensures
        r.deep_view() == add_line_spec(vars.deep_view(), raw@),
{
    let mut vars = vars;
    let line = text::trimmed(raw);
    if text::same(line.as_str(), "") || text::begins_with(line.as_str(), "#") {
        return vars;
    }
    match cut_at(line.as_str(), '=') {
        Some(kv) => {
            let value = unquoted(
                unquoted(text::trimmed(kv.1.as_str()).as_str(), '"').as_str(),
                '\'',
            );
            list::push(&mut vars, (text::uppercase(text::trimmed(kv.0.as_str()).as_str()), value));
        },
        None => {},
    }
    vars
}

/// Those of the first `n` lines.
pub open spec fn add_lines_spec(
    xs: Seq<Seq<char>>,
    vars: Seq<(Seq<char>, Seq<char>)>,
    n: nat,
) -> Seq<(Seq<char>, Seq<char>)>
    decreases n,
{
    if n == 0 {
        vars
    } else {
        let vars = add_lines_spec(xs, vars, (n - 1) as nat);
        let raw = xs[n - 1];
        add_line_spec(vars, raw)
    }
}

fn add_lines(xs: &Vec<String>, vars: Vec<(String, String)>) -> (r: Vec<(String, String)>)
    ensures
        r.deep_view() == add_lines_spec(xs.deep_view(), vars.deep_view(), xs@.len()),
{
    let ghost vars0 = vars.deep_view();
    let mut vars = vars;
    let mut i: usize = 0;
    while i < xs.len()
        invariant
            i <= xs@.len(),
            vars.deep_view() == add_lines_spec(xs.deep_view(), vars0, i as nat),
        decreases xs@.len() - i,
    {
        let raw = xs[i].as_str();
        vars = add_line(vars, raw);
        i = i + 1;
    }
    vars
}

/// The `KEY=value` lines of a text, blanks and `#` comments ignored. Quotes around a value
/// are dropped, because one pasted from elsewhere often arrives quoted. Keys are in capitals;
/// of several lines for one key the last counts.
pub open spec fn parse_env_spec(s: Seq<char>) -> Seq<(Seq<char>, Seq<char>)> {
    add_lines_spec(
        text::split(s, '\n'),
        Seq::<(Seq<char>, Seq<char>)>::empty(),
        text::split(s, '\n').len(),
    )
}

/// The `KEY=value` lines of a text, blanks and `#` comments ignored. Quotes around a value
/// are dropped, because one pasted from elsewhere often arrives quoted. Keys are in capitals;
/// of several lines for one key the last counts.
pub fn parse_env(s: &str) -> (r: Vec<(String, String)>)
    ensures
        r.deep_view() == parse_env_spec(s@),
{
    let mut vars: Vec<(String, String)> = list::none();
    vars = add_lines(&list::split(s, '\n'), vars);
    vars
}

/// Among the first `n` settings.
pub open spec fn find_setting_spec(
    key: Seq<char>,
    xs: Seq<(Seq<char>, Seq<char>)>,
    found: Option<Seq<char>>,
    n: nat,
) -> Option<Seq<char>> {
    match list::last_given(
        xs,
        |it: (Seq<char>, Seq<char>)| {
            let k = it.0;
            let v = it.1;
            if k == key {
                Some(v)
            } else {
                None
            }
        },
        n,
    ) {
        Some(v) => Some(v),
        None => found,
    }
}

fn find_setting(
    key: &str,
    xs: &Vec<(String, String)>,
    found: Option<String>,
) -> (r: Option<String>)
    ensures
        r.deep_view() == find_setting_spec(key@, xs.deep_view(), found.deep_view(), xs@.len()),
{
    let ghost found0 = found.deep_view();
    let mut found = found;
    let mut i: usize = 0;
    while i < xs.len()
        invariant
            i <= xs@.len(),
            found.deep_view() == find_setting_spec(key@, xs.deep_view(), found0, i as nat),
        decreases xs@.len() - i,
    {
        let it = &xs[i];
        let k = it.0.as_str();
        let v = it.1.as_str();
        if text::same(k, key) {
            found = Some(text::owned(v));
        }
        assert(xs.deep_view()[i as int] == xs@[i as int].deep_view());
        assert(found.deep_view() == find_setting_spec(
            key@,
            xs.deep_view(),
            found0,
            (i + 1) as nat,
        ));
        i = i + 1;
    }
    found
}

/// The last value of a key.
pub open spec fn setting_spec(
    vars: Seq<(Seq<char>, Seq<char>)>,
    key: Seq<char>,
) -> Option<Seq<char>> {
    let found: Option<Seq<char>> = None;
    find_setting_spec(key, vars, found, vars.len())
}

fn setting(vars: &Vec<(String, String)>, key: &str) -> (r: Option<String>)
    ensures
        r.deep_view() == setting_spec(vars.deep_view(), key@),
{
    let mut found: Option<String> = None;
    found = find_setting(key, vars, found);
    found
}

/// The value of a key, or of another where that is not set.
pub open spec fn setting_or_spec(
    vars: Seq<(Seq<char>, Seq<char>)>,
    key: Seq<char>,
    other: Seq<char>,
) -> Option<Seq<char>> {
    match setting_spec(vars, key) {
        Some(v) => Some(v),
        None => setting_spec(vars, other),
    }
}

fn setting_or(vars: &Vec<(String, String)>, key: &str, other: &str) -> (r: Option<String>)
    ensures
        r.deep_view() == setting_or_spec(vars.deep_view(), key@, other@),
{
    match setting(vars, key) {
        Some(v) => Some(v),
        None => setting(vars, other),
    }
}

/// What was found at the path of a key file.
#[derive(Debug)]
pub enum KeyFile {
    Absent,
    /// Its permissions could not be read.
    NoStat(String),
    /// Its mode, where others than the owner may read it.
    Shared(u32),
    /// It could not be read.
    NoText(String),
    Text(String),
}

/// What a [`KeyFile`] says.
#[allow(inconsistent_fields)]
pub enum KeyFileView {
    Absent,
    NoStat(Seq<char>),
    Shared(u32),
    NoText(Seq<char>),
    Text(Seq<char>),
}

impl DeepView for KeyFile {
    type V = KeyFileView;

    open spec fn deep_view(&self) -> KeyFileView {
        match self {
            KeyFile::Absent => KeyFileView::Absent,
            KeyFile::NoStat(a) => KeyFileView::NoStat(a@),
            KeyFile::Shared(a) => KeyFileView::Shared(*a),
            KeyFile::NoText(a) => KeyFileView::NoText(a@),
            KeyFile::Text(a) => KeyFileView::Text(a@),
        }
    }
}

/// What a file's mode makes of it: one that others may read is not opened.
pub open spec fn opened_spec(mode: u32) -> Option<KeyFileView> {
    if shared_bits(mode) != 0 {
        Some(KeyFileView::Shared(permissions_spec(mode)))
    } else {
        None
    }
}

/// What a file's mode makes of it: one that others may read is not opened.
pub fn opened(mode: u32) -> (r: Option<KeyFile>)
    ensures
        r.deep_view() == opened_spec(mode),
{
    if shared(mode) {
        return Some(KeyFile::Shared(permissions(mode)));
    }
    None
}

/// Credentials set in the environment.
pub open spec fn from_env_spec(
    key: Option<Seq<char>>,
    secret: Option<Seq<char>>,
) -> Option<CredentialsView> {
    match key {
        Some(k) => match secret {
            Some(s) => if text::trim(k) != ""@ && text::trim(s) != ""@ {
                Some(CredentialsView { key: text::trim(k), secret: text::trim(s) })
            } else {
                None
            },
            None => None,
        },
        None => None,
    }
}

fn from_env(key: Option<&str>, secret: Option<&str>) -> (r: Option<Credentials>)
    ensures
        r.deep_view() == from_env_spec(key.deep_view(), secret.deep_view()),
{
    let k = match key {
        Some(v) => v,
        None => {
            return None;
        },
    };
    let s = match secret {
        Some(v) => v,
        None => {
            return None;
        },
    };
    if !text::same(text::trimmed(k).as_str(), "") && !text::same(text::trimmed(s).as_str(), "") {
        return Some(Credentials { key: text::trimmed(k), secret: text::trimmed(s) });
    }
    None
}

/// The credentials a key file holds.
pub open spec fn from_file_spec(
    path: Seq<char>,
    k_env: Seq<char>,
    s_env: Seq<char>,
    body: Seq<char>,
) -> Result<CredentialsView, KeyErrorView> {
    let vars = parse_env_spec(body);
    let why = path + " has no "@ + k_env + "/"@ + s_env + " (or KEY/SECRET) pair"@;
    match setting_or_spec(vars, k_env, "KEY"@) {
        Some(k) => match setting_or_spec(vars, s_env, "SECRET"@) {
            Some(s) => if k == ""@ || s == ""@ {
                Err(KeyErrorView::Malformed(why))
            } else {
                Ok(CredentialsView { key: k, secret: s })
            },
            None => Err(KeyErrorView::Malformed(why)),
        },
        None => Err(KeyErrorView::Malformed(why)),
    }
}

fn from_file(
    path: &str,
    k_env: &str,
    s_env: &str,
    body: &str,
) -> (r: Result<Credentials, KeyError>)
    ensures
        list::outcome(r) == from_file_spec(path@, k_env@, s_env@, body@),
{
    let vars = parse_env(body);
    let mut why = text::owned(path);
    why.push_str(" has no ");
    why.push_str(k_env);
    why.push_str("/");
    why.push_str(s_env);
    why.push_str(" (or KEY/SECRET) pair");
    let k = match setting_or(&vars, k_env, "KEY") {
        Some(v) => v,
        None => {
            return Err(KeyError::Malformed(why));
        },
    };
    let s = match setting_or(&vars, s_env, "SECRET") {
        Some(v) => v,
        None => {
            return Err(KeyError::Malformed(why));
        },
    };
    if text::same(k.as_str(), "") || text::same(s.as_str(), "") {
        return Err(KeyError::Malformed(why));
    }
    Ok(Credentials { key: k, secret: s })
}

/// The credentials of a venue: the environment first, then the key file.
pub open spec fn load_spec(
    venue: Seq<char>,
    env_key: Option<Seq<char>>,
    env_secret: Option<Seq<char>>,
    path: Seq<char>,
    file: KeyFileView,
) -> Result<CredentialsView, KeyErrorView> {
    let name = text::upper_case(venue);
    let k_env = "RUNGBOT_"@ + name + "_KEY"@;
    let s_env = "RUNGBOT_"@ + name + "_SECRET"@;
    match from_env_spec(env_key, env_secret) {
        Some(c) => Ok(c),
        None => match file {
            KeyFileView::Absent => Err(
                KeyErrorView::Missing(
                    "no credentials for "@
                        + venue
                        + ": set "@
                        + k_env
                        + " and "@
                        + s_env
                        + ", or create "@
                        + path
                        + " (mode 600)"@,
                ),
            ),
            KeyFileView::NoStat(e) => Err(
                KeyErrorView::Unreadable("cannot stat "@ + path + ": "@ + e),
            ),
            KeyFileView::Shared(mode) => Err(KeyErrorView::BadPermissions(path, mode)),
            KeyFileView::NoText(e) => Err(
                KeyErrorView::Unreadable("cannot read "@ + path + ": "@ + e),
            ),
            KeyFileView::Text(body) => from_file_spec(path, k_env, s_env, body),
        },
    }
}

/// The credentials of a venue: the environment first, then the key file.
pub fn load(
    venue: &str,
    env_key: Option<&str>,
    env_secret: Option<&str>,
    path: &str,
    file: &KeyFile,
) -> (r: Result<Credentials, KeyError>)
    ensures
        list::outcome(r) == load_spec(
            venue@,
            env_key.deep_view(),
            env_secret.deep_view(),
            path@,
            file.deep_view(),
        ),
{
    let name = text::uppercase(venue);
    let mut k_env = text::owned("RUNGBOT_");
    k_env.push_str(name.as_str());
    k_env.push_str("_KEY");
    let mut s_env = text::owned("RUNGBOT_");
    s_env.push_str(name.as_str());
    s_env.push_str("_SECRET");
    match from_env(env_key, env_secret) {
        Some(c) => {
            return Ok(c);
        },
        None => {},
    }
    match file {
        KeyFile::Absent => {
            let mut line = text::owned("no credentials for ");
            line.push_str(venue);
            line.push_str(": set ");
            line.push_str(k_env.as_str());
            line.push_str(" and ");
            line.push_str(s_env.as_str());
            line.push_str(", or create ");
            line.push_str(path);
            line.push_str(" (mode 600)");
            Err(KeyError::Missing(line))
        },
        KeyFile::NoStat(e) => {
            let mut line2 = text::owned("cannot stat ");
            line2.push_str(path);
            line2.push_str(": ");
            line2.push_str(e.as_str());
            Err(KeyError::Unreadable(line2))
        },
        KeyFile::Shared(mode) => Err(KeyError::BadPermissions(text::owned(path), *mode)),
        KeyFile::NoText(e) => {
            let mut line3 = text::owned("cannot read ");
            line3.push_str(path);
            line3.push_str(": ");
            line3.push_str(e.as_str());
            Err(KeyError::Unreadable(line3))
        },
        KeyFile::Text(body) => from_file(path, k_env.as_str(), s_env.as_str(), body.as_str()),
    }
}

impl KeyError {
    /// The reason in words.
    pub fn text(&self) -> (r: String)
        ensures
            r@ == key_error_text_spec(self.deep_view()),
    {
        key_error_text(self)
    }
}

/// A key file that others may read is refused, whatever it holds.
pub proof fn law_a_shared_key_file_is_refused(
    venue: Seq<char>,
    path: Seq<char>,
    mode: u32,
    key: Option<Seq<char>>,
    secret: Option<Seq<char>>,
)
    requires
        shared_bits(mode) != 0,
        from_env_spec(key, secret) is None,
    ensures
        opened_spec(mode) matches Some(f) && load_spec(venue, key, secret, path, f) == Err::<
            CredentialsView,
            KeyErrorView,
        >(KeyErrorView::BadPermissions(path, permissions_spec(mode))),
{
}

/// The environment wins over a file.
pub proof fn law_the_environment_wins(
    venue: Seq<char>,
    path: Seq<char>,
    file: KeyFileView,
    key: Seq<char>,
    secret: Seq<char>,
)
    requires
        text::trim(key) != ""@,
        text::trim(secret) != ""@,
    ensures
        load_spec(venue, Some(key), Some(secret), path, file) == Ok::<
            CredentialsView,
            KeyErrorView,
        >(CredentialsView { key: text::trim(key), secret: text::trim(secret) }),
{
}

} // verus!
