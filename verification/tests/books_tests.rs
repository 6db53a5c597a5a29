use website_checker::books::{book_line, parse_book, Book};

fn book(title: &str, author: &str, year: u16) -> Book {
    Book { title: title.to_string(), author: author.to_string(), year }
}

#[test]
fn book_line_is_exact() {
    let b = book("1984", "George Orwell", 1949);
    assert_eq!(book_line(&b), "1984,George Orwell,1949");
}

#[test]
fn stored_lines_parse_back_to_the_same_book() {
    for b in [
        book("1984", "George Orwell", 1949),
        book("To Kill a Mockingbird", "Harper Lee", 1960),
        book("", "", 0),
    ] {
        let line = book_line(&b);
        let parsed = parse_book(&line).expect("round trip");
        assert_eq!(parsed.title, b.title);
        assert_eq!(parsed.author, b.author);
        assert_eq!(parsed.year, b.year);
    }
}

#[test]
fn malformed_lines_are_rejected() {
    assert!(parse_book("no commas here").is_none());
    assert!(parse_book("one,comma only").is_none());
    assert!(parse_book("t,a,").is_none());
    assert!(parse_book("t,a,12x").is_none());
    assert!(parse_book("t,a,70000").is_none());
    assert!(parse_book("t,a,+").is_none());
    assert!(parse_book("t,a,-12").is_none());
    assert!(parse_book("t,a,,12").is_none());
}

#[test]
fn year_field_ends_at_the_next_comma() {
    let b = parse_book("t,a,12,anything after").expect("third field is the year");
    assert_eq!(b.title, "t");
    assert_eq!(b.author, "a");
    assert_eq!(b.year, 12);
}

#[test]
fn year_bounds_parse() {
    assert_eq!(parse_book("t,a,65535").expect("max year").year, 65535);
    assert_eq!(parse_book("t,a,0").expect("zero year").year, 0);
    assert_eq!(parse_book("t,a,+1949").expect("plus-signed year").year, 1949);
}
