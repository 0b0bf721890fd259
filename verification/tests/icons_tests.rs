use rusty_dock::icons::{cairo_pixels, split_lines, IconMap};

fn std_lines(s: &str) -> Vec<String> {
    s.lines().map(|l| l.to_string()).collect()
}

#[test]
fn lines_split_as_std_does() {
    let samples = [
        "",
        "\n",
        "a",
        "a\n",
        "a\nb",
        "a\r\nb\r\n",
        "a\n\nb\n\n",
        "x\r",
        "\r\n\r\n",
        "one=1\ntwo=2\nthree",
        "ünïcödé\r\nzeile\n",
    ];
    for s in samples {
        assert_eq!(split_lines(s), std_lines(s), "input {:?}", s);
    }
}

#[test]
fn empty_index() {
    let m = IconMap::new();
    assert_eq!(m.len(), 0);
    assert!(m.get("/x").is_none());
    assert_eq!(m.to_text(), "");
}

#[test]
fn insert_replaces_earlier_entry() {
    let mut m = IconMap::new();
    m.insert("/usr/share/icons/a.svg".to_string(), "a.png".to_string());
    m.insert("/usr/share/icons/b.svg".to_string(), "b.png".to_string());
    m.insert("/usr/share/icons/a.svg".to_string(), "a2.png".to_string());
    assert_eq!(m.len(), 2);
    assert_eq!(m.get("/usr/share/icons/a.svg").map(|s| s.as_str()), Some("a2.png"));
    assert_eq!(m.get("/usr/share/icons/b.svg").map(|s| s.as_str()), Some("b.png"));
    assert_eq!(m.to_text(), "/usr/share/icons/a.svg=a2.png\n/usr/share/icons/b.svg=b.png\n");
}

#[test]
fn index_file_is_parsed_line_by_line() {
    let m = IconMap::parse("a=1\nno separator\nb=2=3\r\na=4\n=empty key\nc=");
    assert_eq!(m.len(), 4);
    assert_eq!(m.get("a").map(|s| s.as_str()), Some("4"));
    assert_eq!(m.get("b").map(|s| s.as_str()), Some("2=3"));
    assert_eq!(m.get("").map(|s| s.as_str()), Some("empty key"));
    assert_eq!(m.get("c").map(|s| s.as_str()), Some(""));
    assert!(m.get("no separator").is_none());
}

#[test]
fn written_index_reads_back() {
    let mut m = IconMap::new();
    m.insert("/p/one.svg".to_string(), "one.png".to_string());
    m.insert("/p/two.png".to_string(), "two_x.png".to_string());
    let back = IconMap::parse(&m.to_text());
    assert_eq!(back.len(), 2);
    assert_eq!(back.get("/p/one.svg").map(|s| s.as_str()), Some("one.png"));
    assert_eq!(back.get("/p/two.png").map(|s| s.as_str()), Some("two_x.png"));
    assert_eq!(back.to_text(), m.to_text());
}

#[test]
fn pixels_are_reordered_for_cairo() {
    let rgba = vec![1u8, 2, 3, 4, 10, 20, 30, 40];
    assert_eq!(cairo_pixels(&rgba), vec![3u8, 2, 1, 4, 30, 20, 10, 40]);
    assert!(cairo_pixels(&Vec::new()).is_empty());
}
