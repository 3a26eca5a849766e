use bamtag::validate_tag;

#[test]
fn test_valid_tag() {
    assert_eq!(validate_tag("A"), Ok(()));
    assert_eq!(validate_tag("AB"), Ok(()));
}

#[test]
fn test_invalid_tag() {
    assert_eq!(
        validate_tag("ABC"),
        Err("Input must be between 1 and 2 characters long".to_string())
    );
    assert_eq!(
        validate_tag(""),
        Err("Input must be between 1 and 2 characters long".to_string())
    );
}

#[test]
fn tag_length_boundaries() {
    assert!(validate_tag("").is_err());
    assert!(validate_tag("H").is_ok());
    assert!(validate_tag("HP").is_ok());
    assert!(validate_tag("HPX").is_err());
    assert!(validate_tag("HPXY").is_err());
}

#[test]
fn join_args_spaces() {
    let parts = vec!["tool".to_string(), "-i".to_string(), "in.bam".to_string()];
    assert_eq!(bamtag::args::join_args(&parts), "tool -i in.bam");
}

#[test]
fn join_args_single_and_empty() {
    assert_eq!(bamtag::args::join_args(&vec!["only".to_string()]), "only");
    let none: Vec<String> = vec![];
    assert_eq!(bamtag::args::join_args(&none), "");
}
