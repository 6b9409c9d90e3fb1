//! Locations under the data directory, and the check that the credential
//! is configured. The data directory is passed in explicitly.
use vstd::prelude::*;
use crate::error::Error;
use crate::text::{chars_of, push_str};

verus! {

/// `name` joined under `dir` with one `/`, as a path join does.
pub open spec fn join_spec(dir: Seq<char>, name: Seq<char>) -> Seq<char> {
    if dir.len() == 0 || dir.last() == '/' {
        dir + name
    } else {
        dir + seq!['/'] + name
    }
}

/// Join a relative `name` under the directory `dir`.
pub fn join_path(dir: &str, name: &str) -> (r: String)
    ensures
        r@ == join_spec(dir@, name@),
{
    let d = chars_of(dir);
    let mut r = String::from_str(dir);
    if d.len() > 0 && d[d.len() - 1] != '/' {
        crate::text::push_char(&mut r, '/');
    }
    push_str(&mut r, name);
    r
}

/// The transcripts directory under the data directory.
pub fn transcripts_dir(data_dir: &str) -> (r: String)
    ensures
        r@ == join_spec(data_dir@, "transcripts"@),
{
    join_path(data_dir, "transcripts")
}

/// The directory for downloads in progress under the data directory.
pub fn downloads_dir(data_dir: &str) -> (r: String)
    ensures
        r@ == join_spec(data_dir@, ".downloads"@),
{
    join_path(data_dir, ".downloads")
}

/// The index database file under the data directory.
pub fn database_path(data_dir: &str) -> (r: String)
    ensures
        r@ == join_spec(data_dir@, "transcripts.db"@),
{
    join_path(data_dir, "transcripts.db")
}

/// The `.env` file under the data directory.
pub fn env_file_path(data_dir: &str) -> (r: String)
    ensures
        r@ == join_spec(data_dir@, ".env"@),
{
    join_path(data_dir, ".env")
}

/// The transcription credential must be set before any request.
pub fn validate_config(api_key: Option<&str>) -> (r: Result<(), Error>)
    ensures
        api_key is Some <==> r is Ok,
        r is Err ==> r->Err_0 is ApiKeyMissing,
{
    match api_key {
        Some(_) => Ok(()),
        None => Err(Error::ApiKeyMissing),
    }
}

pub open spec fn or_default(o: Option<&str>, d: Seq<char>) -> Seq<char> {
    match o {
        Some(s) => s@,
        None => d,
    }
}

/// The downloader's cookie arguments. With a mounted profile directory
/// (`cookies_path`), the cookies file found in one of its subdirectories,
/// else `<cookies_path>/<profile or default>/cookies.sqlite`; without one,
/// the browser's own store.
pub fn firefox_cookies_args(
    cookies_path: Option<&str>,
    found_cookie_file: Option<&str>,
    profile: Option<&str>,
) -> (r: Vec<String>)
    ensures
        r@.len() == 2,
        cookies_path is None ==> r@[0]@ == "--cookies-from-browser"@ && r@[1]@ == "firefox"@,
        cookies_path is Some ==> r@[0]@ == "--cookies"@,
        cookies_path is Some && found_cookie_file is Some ==> r@[1]@ == found_cookie_file->0@,
        cookies_path is Some && found_cookie_file is None ==> r@[1]@ == cookies_path->0@ + "/"@
            + or_default(profile, "default"@) + "/cookies.sqlite"@,
{
    match cookies_path {
        None => vec![String::from_str("--cookies-from-browser"), String::from_str("firefox")],
        Some(base) => {
            let file = match found_cookie_file {
                Some(f) => String::from_str(f),
                None => {
                    let mut f = String::from_str(base);
                    push_str(&mut f, "/");
                    match profile {
                        Some(p) => push_str(&mut f, p),
                        None => push_str(&mut f, "default"),
                    }
                    push_str(&mut f, "/cookies.sqlite");
                    f
                },
            };
            vec![String::from_str("--cookies"), file]
        },
    }
}

} // verus!
