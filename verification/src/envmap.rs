//! The environment mapper: a pure, total function from request metadata to
//! the CGI environment the backend process is spawned with. Every variable
//! has a defined fallback, so no input is rejected.

use vstd::prelude::*;

use crate::text::{norm_path_exec, to_upper, upper_seq};
use crate::Serve;

verus! {

/// The seven environment variables the CGI convention requires of the
/// bridge, each one already in its final textual form.
pub struct CgiEnv {
    pub request_method: String,
    pub git_project_root: String,
    pub path_info: String,
    pub remote_user: String,
    pub remote_addr: String,
    pub query_string: String,
    pub content_type: String,
}

impl Serve {
    /// Builds the CGI environment for one request.
    ///
    /// The method is upper-cased, the path is normalized to begin with `/`,
    /// the remote user is always empty (identity is delegated), and a
    /// missing query string or content type falls back to the empty string.
    pub fn cgi_env(
        &self,
        method: &str,
        path: &str,
        query_string: Option<&String>,
        remote_addr: &str,
        content_type: &str,
    ) -> (e: CgiEnv)
        ensures
            e.request_method@ == upper_seq(method@),
            e.git_project_root@ == self.0@,
            e.path_info@ == crate::text::norm_path(path@),
            e.remote_user@ == Seq::<char>::empty(),
            e.remote_addr@ == remote_addr@,
            e.query_string@ == match query_string {
                Some(q) => q@,
                None => Seq::<char>::empty(),
            },
            e.content_type@ == content_type@,
    {
        let query = match query_string {
            Some(q) => (*q).clone(),
            None => String::new(),
        };
        CgiEnv {
            request_method: to_upper(method),
            git_project_root: self.0.clone(),
            path_info: norm_path_exec(path),
            remote_user: String::new(),
            remote_addr: remote_addr.to_owned(),
            query_string: query,
            content_type: content_type.to_owned(),
        }
    }
}

impl CgiEnv {
    /// The environment as `(name, value)` pairs, ready to hand to the
    /// process spawner: always exactly the seven required variables, in a
    /// fixed order.
    pub fn to_pairs(&self) -> (r: Vec<(String, String)>)
        ensures
            r@.len() == 7,
            r@[0].0@ == "REQUEST_METHOD"@ && r@[0].1@ == self.request_method@,
            r@[1].0@ == "GIT_PROJECT_ROOT"@ && r@[1].1@ == self.git_project_root@,
            r@[2].0@ == "PATH_INFO"@ && r@[2].1@ == self.path_info@,
            r@[3].0@ == "REMOTE_USER"@ && r@[3].1@ == self.remote_user@,
            r@[4].0@ == "REMOTE_ADDR"@ && r@[4].1@ == self.remote_addr@,
            r@[5].0@ == "QUERY_STRING"@ && r@[5].1@ == self.query_string@,
            r@[6].0@ == "CONTENT_TYPE"@ && r@[6].1@ == self.content_type@,
    {
        let mut r: Vec<(String, String)> = Vec::new();
        r.push(("REQUEST_METHOD".to_owned(), self.request_method.clone()));
        r.push(("GIT_PROJECT_ROOT".to_owned(), self.git_project_root.clone()));
        r.push(("PATH_INFO".to_owned(), self.path_info.clone()));
        r.push(("REMOTE_USER".to_owned(), self.remote_user.clone()));
        r.push(("REMOTE_ADDR".to_owned(), self.remote_addr.clone()));
        r.push(("QUERY_STRING".to_owned(), self.query_string.clone()));
        r.push(("CONTENT_TYPE".to_owned(), self.content_type.clone()));
        r
    }
}

} // verus!
