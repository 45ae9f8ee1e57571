use teleprompter::state::{Align, Font, Rgb, TeleprompterConfig};
use teleprompter::web::init_web_server;
use teleprompter::wire::encode_config;

#[test]
fn encode_is_one_complete_stable_object() {
    let mut c = TeleprompterConfig::default();
    c.playing = true;
    c.text = String::from("Hello viewers");
    c.speed = 1500;
    c.progress = 42;
    c.align = Align::Center;
    c.font = Font::TimesNewRoman;
    c.font_size = 96;
    c.font_color = Rgb { red: 1000, green: 0, blue: 250 };
    c.background_color = Rgb { red: 0, green: 0, blue: 0 };
    c.mirrored = true;
    c.reversed = false;
    let msg = encode_config(&c);
    let expected = "{\"playing\":true,\"text\":\"Hello viewers\",\"speed\":1500,\"progress\":42,\"align\":\"Center\",\"font\":\"Times New Roman\",\"font_size\":96,\"font_color\":[1000,0,250],\"background_color\":[0,0,0],\"mirrored\":true,\"reversed\":false}";
    assert_eq!(msg, expected);
}

#[test]
fn encode_escapes_quotes_backslashes_and_control_characters() {
    let mut c = TeleprompterConfig::default();
    c.text = String::from("A\"B\\C\nD\tE");
    c.speed = 0;
    c.font_size = -5;
    let msg = encode_config(&c);
    assert!(msg.contains("\"text\":\"A\\\"B\\\\C\\u000aD\\u0009E\""));
    assert!(msg.contains("\"speed\":0"));
    assert!(msg.contains("\"font_size\":-5"));
}

#[test]
fn encode_keeps_non_ascii_text_as_itself() {
    let mut c = TeleprompterConfig::default();
    c.text = String::from("ein größeres Stück — проба");
    let msg = encode_config(&c);
    assert!(msg.contains("\"text\":\"ein größeres Stück — проба\""));
}

#[test]
fn page_substitutes_every_port_marker() {
    let template = b"<script>connect(\"ws://h:%PORT%/ws\")</script><p>%PORT%</p>";
    let page = init_web_server(template, 29501);
    assert_eq!(
        page,
        b"<script>connect(\"ws://h:29501/ws\")</script><p>29501</p>".to_vec()
    );
}

#[test]
fn page_without_marker_is_unchanged() {
    let template = b"<html><body>plain</body></html>";
    let page = init_web_server(template, 8080);
    assert_eq!(page, template.to_vec());
}

#[test]
fn page_handles_short_tails_and_partial_markers() {
    let template = b"%PORT";
    let page = init_web_server(template, 1);
    assert_eq!(page, b"%PORT".to_vec());
    let template2 = b"%PORT%%POR";
    let page2 = init_web_server(template2, 7);
    assert_eq!(page2, b"7%POR".to_vec());
}

#[test]
fn page_port_digit_edges() {
    assert_eq!(init_web_server(b"%PORT%", 0), b"0".to_vec());
    assert_eq!(init_web_server(b"%PORT%", 65535), b"65535".to_vec());
}
