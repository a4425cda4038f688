use artist_portfolio::deploy::{dispatch_outcome, DeployConfig, DeployError, DispatchRequest};

fn config(token: &str, owner: &str, repo: &str) -> DeployConfig {
    DeployConfig { github_token: token.to_string(), owner: owner.to_string(), repo: repo.to_string() }
}

#[test]
fn dispatch_request_for_a_full_configuration() {
    let req = config("t0ken", "me", "site").dispatch_request().unwrap();
    assert_eq!(
        req,
        DispatchRequest {
            url: "https://api.github.com/repos/me/site/dispatches".to_string(),
            authorization: "token t0ken".to_string(),
            body: "{\"event_type\":\"deploy_static\"}".to_string(),
        }
    );
}

#[test]
fn missing_configuration_is_refused() {
    assert_eq!(config("", "me", "site").dispatch_request(), Err(DeployError::MissingConfig));
    assert_eq!(config("t", "", "site").dispatch_request(), Err(DeployError::MissingConfig));
    assert_eq!(config("t", "me", "").dispatch_request(), Err(DeployError::MissingConfig));
}

#[test]
fn dispatch_answers() {
    assert_eq!(dispatch_outcome(204, "204 No Content", ""), Ok("/admin/dashboard?deploy=success".to_string()));
    assert_eq!(dispatch_outcome(200, "200 OK", "x"), Ok("/admin/dashboard?deploy=success".to_string()));
    assert_eq!(
        dispatch_outcome(404, "404 Not Found", "{\"message\":\"Not Found\"}"),
        Err(DeployError::Rejected("GitHub API Error: 404 Not Found - {\"message\":\"Not Found\"}".to_string()))
    );
    assert!(dispatch_outcome(300, "300 Multiple Choices", "").is_err());
    assert!(dispatch_outcome(199, "199", "").is_err());
}
