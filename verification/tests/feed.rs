use bing_wallpaper::feed::extract_image_url;
use bing_wallpaper::feed::image_request_url;
use bing_wallpaper::feed::metadata_endpoint;

#[test]
fn extracts_url_from_minimal_document() {
    let body = br#"{"images":[{"url":"/th?id=ABC"}]}"#;
    assert_eq!(extract_image_url(body), Some(b"/th?id=ABC".to_vec()));
}

#[test]
fn extracts_url_from_realistic_document() {
    let body = br#"{"market":"zh-CN","images":[{"startdate":"20260101","fullstartdate":"202601010700","enddate":"20260102","url":"/th?id=OHR.Example_ZH-CN123_1920x1080.jpg&rf=Example.jpg","urlbase":"/th?id=OHR.Example","copyright":"An example scene (\u{a9} somebody)","title":"Example","wp":true,"drk":1,"top":1},{"url":"/second"}],"tooltips":{"loading":"Loading..."}}"#;
    assert_eq!(
        extract_image_url(body),
        Some(b"/th?id=OHR.Example_ZH-CN123_1920x1080.jpg&rf=Example.jpg".to_vec())
    );
}

#[test]
fn extracts_url_with_whitespace_and_skipped_string_escapes() {
    let body = b"  { \"note\" : \"quote \\\" inside\" ,\n\t\"images\" : [ { \"n\" : 7 , \"url\" : \"/th?id=X\" } ] }";
    assert_eq!(extract_image_url(body), Some(b"/th?id=X".to_vec()));
}

#[test]
fn missing_images_member_is_a_failure() {
    assert_eq!(extract_image_url(br#"{"foo":"bar"}"#), None);
}

#[test]
fn empty_images_array_is_a_failure() {
    assert_eq!(extract_image_url(br#"{"images":[]}"#), None);
}

#[test]
fn missing_url_member_is_a_failure() {
    assert_eq!(extract_image_url(br#"{"images":[{"urlbase":"/th?id=Y"}]}"#), None);
}

#[test]
fn non_object_document_is_a_failure() {
    assert_eq!(extract_image_url(b""), None);
    assert_eq!(extract_image_url(b"   "), None);
    assert_eq!(extract_image_url(b"[1,2]"), None);
    assert_eq!(extract_image_url(b"images"), None);
}

#[test]
fn unterminated_string_is_a_failure() {
    assert_eq!(extract_image_url(br#"{"images":[{"url":"/th"#), None);
}

#[test]
fn escaped_identifier_is_refused() {
    let body = b"{\"images\":[{\"url\":\"/a\\\\b\"}]}";
    assert_eq!(extract_image_url(body), None);
}

#[test]
fn image_request_url_appends_identifier_to_host() {
    let id = b"/th?id=ABC".to_vec();
    assert_eq!(
        image_request_url(&id),
        b"https://s.cn.bing.net/th?id=ABC".to_vec()
    );
}

#[test]
fn image_request_url_of_empty_identifier_is_the_host() {
    assert_eq!(image_request_url(&Vec::new()), b"https://s.cn.bing.net".to_vec());
}

#[test]
fn metadata_endpoint_is_the_fixed_feed_url() {
    assert_eq!(
        metadata_endpoint(),
        "https://cn.bing.com/HPImageArchive.aspx?format=js&idx=0&n=1&mkt=zh-CN"
    );
}
