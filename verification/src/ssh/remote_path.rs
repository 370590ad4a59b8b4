//! Paths on remote hosts: absolute ones and those below the home directory.
use super::shell::{shell_escape, shell_quoted};
use crate::error::Failure;
use crate::text::{
    cat2, cat3, cat5, contains_char, same, starts_with, strip_prefix, trim, trimmed,
};
use vstd::prelude::*;

verus! {

/// The form of a remote path.
#[derive(Debug, Clone, Copy, PartialEq, Eq)]
pub enum SshRemotePathKind<'a> {
    Absolute(&'a str),
    Home,
    HomeRelative(&'a str),
}

/// A remote path.
#[derive(Debug, Clone, Copy, PartialEq, Eq)]
pub struct SshRemotePath<'a> {
    raw: &'a str,
    kind: SshRemotePathKind<'a>,
}

/// The content of a remote path's form.
pub enum RemotePathText {
    Absolute(Seq<char>),
    Home,
    HomeRelative(Seq<char>),
}

/// The form of a trimmed text, where it is a remote path.
pub open spec fn remote_form(t: Seq<char>) -> Option<RemotePathText> {
    if t.len() == 0 || t.contains('\0') {
        None
    } else if "/"@.is_prefix_of(t) {
        Some(RemotePathText::Absolute(t))
    } else if t == "~"@ {
        Some(RemotePathText::Home)
    } else if "~/"@.is_prefix_of(t) {
        Some(RemotePathText::HomeRelative(t.skip("~/"@.len() as int)))
    } else {
        None
    }
}

/// Why a trimmed text is no remote path.
pub open spec fn remote_refusal(t: Seq<char>, field: Seq<char>) -> Seq<char> {
    if t.len() == 0 {
        field + " cannot be empty"@
    } else if t.contains('\0') {
        field + " cannot contain NUL bytes"@
    } else if "~"@.is_prefix_of(t) {
        field + " only supports ~ or ~/..., not user-relative paths: "@ + field + "="@ + t
    } else {
        field + " must be an absolute path, ~, or ~/...: "@ + field + "="@ + t
    }
}

/// How a remote path is written for the remote shell.
pub open spec fn shell_form(form: RemotePathText) -> Seq<char> {
    match form {
        RemotePathText::Absolute(path) => shell_quoted(path),
        RemotePathText::Home => "\"${HOME:-~}\""@,
        RemotePathText::HomeRelative(rest) => if rest.len() == 0 {
            "\"${HOME:-~}\""@
        } else {
            "\"${HOME:-~}\"/"@ + shell_quoted(rest)
        },
    }
}

/// A remote path where the home directory is known.
pub open spec fn with_home(form: RemotePathText, home: Seq<char>) -> Seq<char> {
    match form {
        RemotePathText::Absolute(path) => path,
        RemotePathText::Home => home,
        RemotePathText::HomeRelative(rest) => if rest.len() == 0 {
            home
        } else if home == "/"@ {
            "/"@ + rest
        } else {
            home + "/"@ + rest
        },
    }
}

impl<'a> SshRemotePathKind<'a> {
    /// The content of the form.
    pub open spec fn view(&self) -> RemotePathText {
        match *self {
            SshRemotePathKind::Absolute(p) => RemotePathText::Absolute(p@),
            SshRemotePathKind::Home => RemotePathText::Home,
            SshRemotePathKind::HomeRelative(p) => RemotePathText::HomeRelative(p@),
        }
    }
}

impl<'a> SshRemotePath<'a> {
    /// The text of the path.
    pub closed spec fn raw_text(&self) -> Seq<char> {
        self.raw@
    }

    /// The form of the path.
    pub closed spec fn form(&self) -> RemotePathText {
        self.kind@
    }

    /// Reads a remote path. `field` names it in the message of a refusal.
    pub fn parse(path: &'a str, field: &str) -> (r: Result<Self, Failure>)
        ensures
            match r {
                Ok(p) => {
                    &&& remote_form(trimmed(path@)) == Some(p.form())
                    &&& p.raw_text() == trimmed(path@)
                },
                Err(e) => {
                    &&& remote_form(trimmed(path@)) is None
                    &&& e@ == remote_refusal(trimmed(path@), field@)
                },
            },
    {
        let path = trim(path);
        if path.is_empty() {
            return Err(Failure::new(cat2(field, " cannot be empty")));
        }
        if contains_char(path, '\0') {
            return Err(Failure::new(cat2(field, " cannot contain NUL bytes")));
        }
        if starts_with(path, "/") {
            return Ok(SshRemotePath { raw: path, kind: SshRemotePathKind::Absolute(path) });
        }
        if same(path, "~") {
            return Ok(SshRemotePath { raw: path, kind: SshRemotePathKind::Home });
        }
        match strip_prefix(path, "~/") {
            Some(rest) => {
                return Ok(SshRemotePath { raw: path, kind: SshRemotePathKind::HomeRelative(rest) });
            },
            None => {},
        }
        if starts_with(path, "~") {
            Err(
                Failure::new(
                    cat5(
                        field,
                        " only supports ~ or ~/..., not user-relative paths: ",
                        field,
                        "=",
                        path,
                    ),
                ),
            )
        } else {
            Err(
                Failure::new(
                    cat5(field, " must be an absolute path, ~, or ~/...: ", field, "=", path),
                ),
            )
        }
    }

    /// The text of the path.
    pub fn input(self) -> (r: &'a str)
        ensures
            r@ == self.raw_text(),
    {
        self.raw
    }

    /// The form of the path.
    pub fn kind(self) -> (r: SshRemotePathKind<'a>)
        ensures
            r@ == self.form(),
    {
        self.kind
    }

    /// The path as it is written for the remote shell.
    pub fn render_for_shell(self) -> (r: String)
        ensures
            r@ == shell_form(self.form()),
    {
        match self.kind {
            SshRemotePathKind::Absolute(path) => shell_escape(path),
            SshRemotePathKind::Home => "\"${HOME:-~}\"".to_owned(),
            SshRemotePathKind::HomeRelative(rest) => {
                if rest.is_empty() {
                    "\"${HOME:-~}\"".to_owned()
                } else {
                    let quoted = shell_escape(rest);
                    cat2("\"${HOME:-~}\"/", quoted.as_str())
                }
            },
        }
    }

    /// The path where the home directory is known.
    pub fn resolve_with_home(self, home: &str) -> (r: String)
        ensures
            r@ == with_home(self.form(), home@),
    {
        match self.kind {
            SshRemotePathKind::Absolute(path) => path.to_owned(),
            SshRemotePathKind::Home => home.to_owned(),
            SshRemotePathKind::HomeRelative(rest) => {
                if rest.is_empty() {
                    home.to_owned()
                } else if same(home, "/") {
                    cat2("/", rest)
                } else {
                    cat3(home, "/", rest)
                }
            },
        }
    }
}

/// A remote path where the home directory is an absolute path is absolute.
pub proof fn law_resolved_remote_path_is_absolute(t: Seq<char>, home: Seq<char>)
    requires
        remote_form(t) is Some,
        "/"@.is_prefix_of(home),
    ensures
        "/"@.is_prefix_of(with_home(remote_form(t)->0, home)),
{
    reveal_strlit("/");
    let path = with_home(remote_form(t)->0, home);
    assert(path.len() >= 1 && path[0] == '/') by {
        assert(home.subrange(0, 1)[0] == '/');
        if "/"@.is_prefix_of(t) {
            assert(t.subrange(0, 1)[0] == '/');
        }
    }
    assert(path.subrange(0, 1) =~= "/"@);
}

/// A remote path is absolute, the remote home or something below it, and holds no zero
/// character. To the remote shell, and where the home directory is known, it stands for
/// that.
pub proof fn law_remote_paths_stand_for_themselves(t: Seq<char>, home: Seq<char>, rest: Seq<char>)
    ensures
        remote_form(t) is Some <==> t.len() > 0 && !t.contains('\0') && (t[0] == '/' || (t[0] == '~'
            && (t.len() == 1 || t[1] == '/'))),
        remote_form(t) is Some && t[0] == '/' ==> with_home(remote_form(t)->0, home) == t
            && super::shell::shell_reads(
            shell_form(remote_form(t)->0),
            super::shell::Quoting::Outside,
        ) == Some(t),
        remote_form(t) is Some && (t == seq!['~'] || t == seq!['~', '/']) ==> with_home(
            remote_form(t)->0,
            home,
        ) == home && shell_form(remote_form(t)->0) == "\"${HOME:-~}\""@,
        remote_form(t) is Some && t == seq!['~', '/'] + rest && rest.len() > 0 ==> {
            &&& home != seq!['/'] ==> with_home(remote_form(t)->0, home) == home + seq!['/'] + rest
            &&& home == seq!['/'] ==> with_home(remote_form(t)->0, home) == seq!['/'] + rest
            &&& shell_form(remote_form(t)->0) == "\"${HOME:-~}\"/"@ + shell_quoted(rest)
            &&& super::shell::shell_reads(shell_quoted(rest), super::shell::Quoting::Outside)
                == Some(rest)
        },
{
    reveal_strlit("/");
    reveal_strlit("~");
    reveal_strlit("~/");
    assert("/"@ =~= seq!['/']);
    assert("~"@ =~= seq!['~']);
    assert("~/"@ =~= seq!['~', '/']);
    super::shell::law_shell_reads_back_quoted_text(t);
    super::shell::law_shell_reads_back_quoted_text(rest);
    if t.len() > 0 && t[0] == '/' {
        assert("/"@ =~= t.take(1));
        assert("/"@.is_prefix_of(t));
    }
    if t.len() == 1 && t[0] == '~' {
        assert(t =~= "~"@);
    }
    if t.len() > 1 && t[0] == '~' && t[1] == '/' {
        assert("~/"@ =~= t.take(2));
        assert("~/"@.is_prefix_of(t));
    }
    if "/"@.is_prefix_of(t) {
        assert(t[0] == "/"@[0]);
    }
    if "~/"@.is_prefix_of(t) {
        assert(t[0] == "~/"@[0] && t[1] == "~/"@[1]);
    }
    if t == seq!['~', '/'] {
        assert(t.skip(2).len() == 0);
    }
    if t == seq!['~', '/'] + rest {
        assert(t[0] == '~' && t[1] == '/');
        assert(t.skip(2) =~= rest);
    }
}

/// Why a text is no remote path is said of the named field.
pub proof fn law_refusals_name_the_field(t: Seq<char>, field: Seq<char>)
    ensures
        field.is_prefix_of(remote_refusal(t, field)),
        t.len() == 0 ==> remote_refusal(t, field) == field + " cannot be empty"@,
        t.len() > 0 && !t.contains('\0') ==> t.is_suffix_of(remote_refusal(t, field)),
{
    let r = remote_refusal(t, field);
    assert(field =~= r.subrange(0, field.len() as int));
    if t.len() > 0 && !t.contains('\0') {
        assert(t =~= r.subrange((r.len() - t.len()) as int, r.len() as int));
    }
}

} // verus!
