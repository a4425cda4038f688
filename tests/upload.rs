use artist_portfolio::upload::{resource_type_for, signature_payload, CloudinaryConfig};

#[test]
fn resource_types() {
    assert_eq!(resource_type_for("song.MP3"), "video");
    assert_eq!(resource_type_for("a.wav"), "video");
    assert_eq!(resource_type_for("a.ogg"), "video");
    assert_eq!(resource_type_for("a.M4a"), "video");
    assert_eq!(resource_type_for("a.aac"), "video");
    assert_eq!(resource_type_for("cv.Pdf"), "raw");
    assert_eq!(resource_type_for("photo.jpg"), "auto");
    assert_eq!(resource_type_for("mp3"), "auto");
    assert_eq!(resource_type_for(""), "auto");
}

#[test]
fn signature_of_an_upload() {
    assert_eq!(signature_payload(1700000000, "secret"), "timestamp=1700000000secret");
    assert_eq!(signature_payload(0, ""), "timestamp=0");
    let config = CloudinaryConfig::new("cloud".to_string(), "key".to_string(), "secret".to_string());
    assert_eq!(config.signature(1700000000), "84af3c6077e429a8e7ff26d2ca13d5feb6bc7cb0");
}

#[test]
fn upload_endpoint() {
    let config = CloudinaryConfig::new("demo".to_string(), "k".to_string(), "s".to_string());
    assert_eq!(config.api_key, "k");
    assert_eq!(config.upload_url("raw"), "https://api.cloudinary.com/v1_1/demo/raw/upload");
}
