use lazypost::items::{Hue, OAuth2Grant, RequestType};

#[test]
fn request_type_as_str() {
    assert_eq!(RequestType::Get.as_str(), "GET");
    assert_eq!(RequestType::Post.as_str(), "POST");
    assert_eq!(RequestType::Put.as_str(), "PUT");
    assert_eq!(RequestType::Delete.as_str(), "DELETE");
    assert_eq!(RequestType::Patch.as_str(), "PATCH");
}

#[test]
fn request_type_color() {
    assert_eq!(RequestType::Get.color(), Hue::Blue);
    assert_eq!(RequestType::Post.color(), Hue::Green);
    assert_eq!(RequestType::Put.color(), Hue::Yellow);
    assert_eq!(RequestType::Delete.color(), Hue::Red);
    assert_eq!(RequestType::Patch.color(), Hue::Cyan);
}

#[test]
fn oauth2_grant_defaults_to_client_credentials() {
    assert_eq!(OAuth2Grant::default(), OAuth2Grant::ClientCredentials);
}
