//! Publishing the static site: the repository dispatch that starts the deploy
//! workflow, and what its answer means for the admin.

use vstd::prelude::*;
use crate::text::{owned, push_str};

verus! {

/// Where the deploy workflow lives and the token allowed to start it.
pub struct DeployConfig {
    pub github_token: String,
    pub owner: String,
    pub repo: String,
}

/// The request that starts the deploy workflow.
#[derive(Debug, Clone, PartialEq)]
pub struct DispatchRequest {
    pub url: String,
    /// The value of the `Authorization` header.
    pub authorization: String,
    /// The JSON body.
    pub body: String,
}

/// Why no deploy was started.
#[derive(Debug, Clone, PartialEq)]
pub enum DeployError {
    /// The token, the owner or the repository is not configured.
    MissingConfig,
    /// The service refused the dispatch: its status line and answer.
    Rejected(String),
}

/// Where the admin is sent after a successful dispatch.
pub open spec fn deployed_location() -> Seq<char> {
    "/admin/dashboard?deploy=success"@
}

impl DeployConfig {
    /// The dispatch request for this configuration; refused where the token, the
    /// owner or the repository is empty.
    pub fn dispatch_request(&self) -> (r: Result<DispatchRequest, DeployError>)
        ensures
            r is Err <==> (self.github_token@.len() == 0 || self.owner@.len() == 0
                || self.repo@.len() == 0),
            r matches Err(e) ==> e == DeployError::MissingConfig,
            r matches Ok(req) ==> {
                &&& req.url@ == "https://api.github.com/repos/"@ + self.owner@ + "/"@ + self.repo@
                    + "/dispatches"@
                &&& req.authorization@ == "token "@ + self.github_token@
                &&& req.body@ == "{\"event_type\":\"deploy_static\"}"@
            },
    {
        if self.github_token.as_str().is_empty() || self.owner.as_str().is_empty()
            || self.repo.as_str().is_empty() {
            return Err(DeployError::MissingConfig);
        }
        let mut url = owned("https://api.github.com/repos/");
        push_str(&mut url, self.owner.as_str());
        push_str(&mut url, "/");
        push_str(&mut url, self.repo.as_str());
        push_str(&mut url, "/dispatches");
        let mut authorization = owned("token ");
        push_str(&mut authorization, self.github_token.as_str());
        let body = owned("{\"event_type\":\"deploy_static\"}");
        Ok(DispatchRequest { url, authorization, body })
    }
}

/// What the service's answer to a dispatch means: a 2xx status sends the admin to
/// the dashboard (the location is returned); any other is a rejection whose message
/// holds the status line and the answer's text.
pub fn dispatch_outcome(status: u16, status_line: &str, answer: &str) -> (r: Result<String, DeployError>)
    ensures
        200 <= status <= 299 ==> (r matches Ok(loc) && loc@ == deployed_location()),
        !(200 <= status <= 299) ==> (r matches Err(DeployError::Rejected(m)) && m@
            == "GitHub API Error: "@ + status_line@ + " - "@ + answer@),
{
    if 200 <= status && status <= 299 {
        Ok(owned("/admin/dashboard?deploy=success"))
    } else {
        let mut m = owned("GitHub API Error: ");
        push_str(&mut m, status_line);
        push_str(&mut m, " - ");
        push_str(&mut m, answer);
        Err(DeployError::Rejected(m))
    }
}

} // verus!
