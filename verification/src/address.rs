//! URLs as the downloader reads them: parsing, and the file name that a URL
//! designates.
use vstd::prelude::*;
use vstd::string::*;

verus! {

#[verifier::external_type_specification]
#[verifier::external_body]
pub struct ExUrl(reqwest::Url);

/// A URL as the parser gave it, held as the two texts that the downloader
/// reads: its serialization (what `Url::as_str` gives) and its path (what
/// `Url::path` gives), together with the parsed value itself, which is
/// carried through to the HTTP client and never read here. Its fields are
/// private: every value comes from `Url::parse`, so the parsed value is the
/// one the texts describe.
#[derive(Debug, PartialEq, Eq)]
pub struct ParsedUrl {
    serialization: String,
    path: String,
    parsed: reqwest::Url,
}

impl ParsedUrl {
    /// The serialization of the URL.
    pub closed spec fn text(self) -> Seq<char> {
        self.serialization@
    }

    /// The path of the URL.
    pub closed spec fn path_text(self) -> Seq<char> {
        self.path@
    }

    /// The serialization of the URL (`Url::as_str`).
    pub fn as_str(&self) -> (text: &str)
        ensures
            text@ == self.text(),
    {
        self.serialization.as_str()
    }

    /// The path of the URL (`Url::path`).
    pub fn path(&self) -> (path: &str)
        ensures
            path@ == self.path_text(),
    {
        self.path.as_str()
    }

    /// The parsed URL, to hand to the HTTP client.
    pub fn parsed(&self) -> &reqwest::Url {
        &self.parsed
    }

    /// A copy of the URL.
    pub fn duplicate(&self) -> (copy: ParsedUrl)
        ensures
            copy == *self,
    {
        ParsedUrl {
            serialization: self.serialization.clone(),
            path: self.path.clone(),
            parsed: copy_url(&self.parsed),
        }
    }
}

/// Copies a parsed URL with `Url::clone`, which the `url` crate derives: the
/// copy equals the original.
#[verifier::external_body]
fn copy_url(url: &reqwest::Url) -> (copy: reqwest::Url)
    ensures
        copy == *url,
{
    url.clone()
}

/// What `Url::parse` gives for `input`: the serialization and the path of the
/// parsed URL, or the text of the parse error.
pub uninterp spec fn url_parse_result(input: Seq<char>) -> Result<(Seq<char>, Seq<char>), Seq<char>>;

/// Calls `reqwest::Url::parse` (the `url` crate's parser). The contract only
/// ties the outcome to the input through `url_parse_result`: the serialization
/// and the path of the parsed URL on success, the `Display` text of the
/// `ParseError` on failure. What the parser accepts is not stated.
#[verifier::external_body]
pub(crate) fn parse_url(input: &str) -> (res: Result<ParsedUrl, String>)
    ensures
        match res {
            Ok(url) => url_parse_result(input@) == Ok::<(Seq<char>, Seq<char>), Seq<char>>(
                (url.text(), url.path_text()),
            ),
            Err(error) => url_parse_result(input@) == Err::<(Seq<char>, Seq<char>), Seq<char>>(
                error@,
            ),
        },
{
    match reqwest::Url::parse(input) {
        Ok(url) => Ok(
            ParsedUrl { serialization: url.as_str().to_string(), path: url.path().to_string(), parsed: url },
        ),
        Err(error) => Err(error.to_string()),
    }
}

/// The text after the last `/` of `s` (all of `s` when it holds no `/`).
pub open spec fn after_last_slash(s: Seq<char>) -> Seq<char>
    decreases s.len(),
{
    if s.len() == 0 {
        Seq::empty()
    } else if s.last() == '/' {
        Seq::empty()
    } else {
        after_last_slash(s.drop_last()).push(s.last())
    }
}

/// The last path segment of a URL whose path is `path`, when there is one and
/// it is not empty: `path_segments()` exists only for a path that starts with
/// `/`, and its last segment is what follows the last `/`.
pub open spec fn url_file_name_spec(path: Seq<char>) -> Option<Seq<char>> {
    if path.len() == 0 || path[0] != '/' {
        None
    } else if after_last_slash(path).len() == 0 {
        None
    } else {
        Some(after_last_slash(path))
    }
}

proof fn lemma_after_last_slash_has_no_slash(s: Seq<char>)
    ensures
        !after_last_slash(s).contains('/'),
        after_last_slash(s).len() <= s.len(),
        after_last_slash(s) == s.subrange(s.len() - after_last_slash(s).len(), s.len() as int),
    decreases s.len(),
{
    if s.len() > 0 && s.last() != '/' {
        lemma_after_last_slash_has_no_slash(s.drop_last());
        let t = after_last_slash(s.drop_last());
        assert(!t.push(s.last()).contains('/')) by {
            if t.push(s.last()).contains('/') {
                let k = choose|k: int| 0 <= k < t.push(s.last()).len() && t.push(s.last())[k] == '/';
                if k < t.len() {
                    assert(t.contains('/'));
                }
            }
        }
        assert(t.push(s.last()) =~= s.subrange(s.len() - t.len() - 1, s.len() as int));
    } else if s.len() > 0 {
        assert(s.subrange(s.len() as int, s.len() as int) =~= Seq::<char>::empty());
    }
}

proof fn lemma_after_last_slash_of_segment(prefix: Seq<char>, name: Seq<char>)
    requires
        !name.contains('/'),
    ensures
        after_last_slash(prefix + seq!['/'] + name) == name,
    decreases name.len(),
{
    let p = prefix + seq!['/'] + name;
    if name.len() == 0 {
        assert(p.last() == '/');
    } else {
        assert(p.last() == name.last());
        assert(name.drop_last().len() < name.len());
        assert(!name.drop_last().contains('/')) by {
            if name.drop_last().contains('/') {
                let k = choose|k: int| 0 <= k < name.drop_last().len() && name.drop_last()[k] == '/';
                assert(name[k] == '/');
            }
        }
        assert(p.last() != '/') by {
            assert(name[name.len() - 1] == p.last());
        }
        assert(p.drop_last() =~= prefix + seq!['/'] + name.drop_last());
        lemma_after_last_slash_of_segment(prefix, name.drop_last());
        assert(name.drop_last().push(name.last()) =~= name);
    }
}

/// A path that starts with a slash and ends with a slash followed by a
/// non-empty name holding no slash names that file, however long the name.
pub proof fn lemma_file_name_is_last_segment(prefix: Seq<char>, name: Seq<char>)
    requires
        !name.contains('/'),
        name.len() > 0,
        (prefix + seq!['/'] + name)[0] == '/',
    ensures
        url_file_name_spec(prefix + seq!['/'] + name) == Some(name),
{
    lemma_after_last_slash_of_segment(prefix, name);
}

/// A path that ends with a slash, or that does not start with one, names no
/// file.
pub proof fn lemma_no_file_name(path: Seq<char>)
    ensures
        path.len() > 0 && path.last() == '/' ==> url_file_name_spec(path) is None,
        path.len() == 0 || path[0] != '/' ==> url_file_name_spec(path) is None,
{
}

/// The file name that the last path segment of `url` gives, if any.
pub fn url_file_name(url: &ParsedUrl) -> (name: Option<String>)
    ensures
        match name {
            Some(n) => url_file_name_spec(url.path_text()) == Some(n@),
            None => url_file_name_spec(url.path_text()) is None,
        },
        name matches Some(n) ==> !n@.contains('/') && n@.len() > 0,
{
    let path = url.path();
    let len = path.unicode_len();
    proof {
        lemma_after_last_slash_has_no_slash(path@);
    }
    if len == 0 || path.get_char(0) != '/' {
        return None;
    }
    // scan backwards for the last '/'
    let mut j: usize = len;
    assert(path@.subrange(0, j as int) =~= path@);
    assert(path@.subrange(j as int, len as int) =~= Seq::<char>::empty());
    assert(after_last_slash(path@) =~= after_last_slash(path@) + Seq::<char>::empty());
    while j > 0 && path.get_char(j - 1) != '/'
        invariant
            j <= len,
            len == path@.len(),
            after_last_slash(path@) == after_last_slash(path@.subrange(0, j as int)) + path@.subrange(
                j as int,
                len as int,
            ),
        decreases j,
    {
        let ghost prefix = path@.subrange(0, j as int);
        assert(prefix.drop_last() =~= path@.subrange(0, j - 1));
        assert(path@.subrange(j - 1, len as int) =~= seq![prefix.last()] + path@.subrange(
            j as int,
            len as int,
        ));
        assert(after_last_slash(prefix) == after_last_slash(prefix.drop_last()).push(prefix.last()));
        assert(after_last_slash(prefix.drop_last()).push(prefix.last()) + path@.subrange(
            j as int,
            len as int,
        ) =~= after_last_slash(prefix.drop_last()) + path@.subrange(j - 1, len as int));
        j = j - 1;
    }
    proof {
        let prefix = path@.subrange(0, j as int);
        if j > 0 {
            assert(prefix.last() == '/');
        }
        assert(after_last_slash(prefix) =~= Seq::<char>::empty());
        assert(after_last_slash(path@) =~= path@.subrange(j as int, len as int));
    }
    if j == len {
        return None;
    }
    let segment = path.substring_char(j, len);
    Some(String::from_str(segment))
}

/// The text of the error that `download_file` reports for an input that
/// does not parse as a URL.
pub open spec fn invalid_url_message(input: Seq<char>, error: Seq<char>) -> Seq<char> {
    "The URL '"@ + input + "' is invalid: "@ + error
}

/// Parses the URL of a download; the error names the input and the parser's
/// reason.
pub fn parse_download_url(input: &str) -> (res: Result<ParsedUrl, String>)
    ensures
        match url_parse_result(input@) {
            Ok(parts) => res matches Ok(url) && parts == (url.text(), url.path_text()),
            Err(error) => res matches Err(message) && message@ == invalid_url_message(input@, error),
        },
{
    match parse_url(input) {
        Ok(url) => Ok(url),
        Err(error) => {
            let mut message = String::from_str("The URL '");
            message.append(input);
            message.append("' is invalid: ");
            message.append(error.as_str());
            Err(message)
        },
    }
}

} // verus!
