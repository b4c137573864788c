use arena::flash::{
    flash_class, flash_cookies, Flash, FlashType, FLASH_TYPE_ERROR, FLASH_TYPE_INFO,
    FLASH_TYPE_PRIMARY, FLASH_TYPE_SUCCESS, FLASH_TYPE_WARNING,
};

#[test]
fn flash_types_have_their_classes() {
    assert_eq!(FlashType::Success.to_class(), "alert alert-success");
    assert_eq!(FlashType::Error.to_class(), "alert alert-danger");
    assert_eq!(FlashType::Info.to_class(), "alert alert-info");
    assert_eq!(FlashType::Warning.to_class(), "alert alert-warning");
    assert_eq!(FlashType::Primary.to_class(), "alert alert-primary");
}

#[test]
fn flash_type_names_read_back() {
    for t in [FlashType::Success, FlashType::Error, FlashType::Info, FlashType::Warning, FlashType::Primary] {
        assert_eq!(FlashType::from_str(t.to_str()), t);
    }
    assert_eq!(FlashType::from_str("bogus"), FlashType::Primary);
    assert_eq!(FLASH_TYPE_SUCCESS, "success");
    assert_eq!(FLASH_TYPE_ERROR, "error");
    assert_eq!(FLASH_TYPE_INFO, "info");
    assert_eq!(FLASH_TYPE_WARNING, "warning");
    assert_eq!(FLASH_TYPE_PRIMARY, "primary");
}

#[test]
fn flash_class_follows_the_stored_type() {
    let flash = Flash { message: Some("Saved".to_string()), flash_type: Some("success".to_string()) };
    assert_eq!(flash.class(), "alert alert-success");
    assert_eq!(flash.message(), &Some("Saved".to_string()));
    let flash = Flash { message: None, flash_type: None };
    assert_eq!(flash.class(), "");
    assert_eq!(flash_class(&Some("whatever".to_string())), "alert alert-primary");
    assert_eq!(flash_class(&Some("error".to_string())), "alert alert-danger");
}

#[test]
fn flash_cookies_carry_encoded_message_and_type() {
    let (message, kind) = flash_cookies("Snake saved & ready!", FlashType::Warning);
    assert_eq!(message, "flash_message=Snake%20saved%20%26%20ready%21; Path=/; HttpOnly; SameSite=Lax");
    assert_eq!(kind, "flash_type=warning; Path=/; HttpOnly; SameSite=Lax");
}

#[test]
fn flash_cookie_encodes_utf8_bytes_and_keeps_unreserved() {
    let (message, _) = flash_cookies("a-b_c.d~é/", FlashType::Info);
    assert_eq!(message, "flash_message=a-b_c.d~%C3%A9%2F; Path=/; HttpOnly; SameSite=Lax");
}
