use synapse::web::{asset_key, respond, Reply};

#[test]
fn asset_key_drops_leading_slashes() {
    assert_eq!(asset_key("///assets/app.css"), "assets/app.css");
    assert_eq!(asset_key("/"), "");
    assert_eq!(asset_key("index.html"), "index.html");
}

#[test]
fn found_asset_carries_its_media_type() {
    assert_eq!(respond("app.js", true), Reply::Asset { content_type: "text/javascript".to_string() });
    assert_eq!(respond("assets/app.css", true), Reply::Asset { content_type: "text/css".to_string() });
    assert_eq!(respond("LICENSE", true), Reply::Asset { content_type: "application/octet-stream".to_string() });
}

#[test]
fn missing_paths_fall_back_or_are_not_found() {
    assert_eq!(respond("", false), Reply::Index);
    assert_eq!(respond("settings/profile", false), Reply::Index);
    assert_eq!(respond("missing.png", false), Reply::NotFound);
}

#[test]
fn only_the_last_segment_decides_the_extension() {
    assert_eq!(respond("v1.2/page", false), Reply::Index);
    assert_eq!(respond(".hidden", false), Reply::Index);
    assert_eq!(respond("dir/.hidden", false), Reply::Index);
    assert_eq!(respond("docs/readme.txt", false), Reply::NotFound);
    assert_eq!(respond("archive.", false), Reply::NotFound);
    assert_eq!(respond("a.b/c.d/e", false), Reply::Index);
}
