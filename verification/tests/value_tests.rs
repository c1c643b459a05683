use stepflow::email::{extract_login, is_valid_email_local_part_char};
use stepflow::errors::InvalidValue;
use stepflow::id::VarId;
use stepflow::statedata::ValidVal;
use stepflow::value::{
    BaseValue, BoolValue, EmailValue, StringValue, TrueValue, UriValue, Value, ValueKind,
};
use stepflow::var::{BoolVar, EmailVar, StringVar, TrueVar, UriVar, Var};

const GOOD_URI: &str = "/hi";
const BAD_URI: &str = "$$$å";

#[test]
fn val_downcast() {
    let strval = StringValue::try_new("hi").unwrap();
    let val: Value = strval.clone().boxed();
    assert!(val.is::<StringValue>());
    let stringval: Option<&StringValue> = val.downcast::<StringValue>();
    assert!(matches!(stringval, Some(_)));

    // try our helper fn
    assert_eq!(val.downcast::<StringValue>().unwrap().val(), "hi");
    assert_eq!(val.is::<StringValue>(), true);
    assert_eq!(val.downcast::<EmailValue>(), None);
    assert_eq!(val.is::<EmailValue>(), false);
}

#[test]
fn value_partial_eq() {
    const EMAIL: &str = "a@b.com";
    let true_val: Value = TrueValue::new().boxed();
    let email_val: Value = EmailValue::try_new(EMAIL).unwrap().boxed();
    let string_val: Value = StringValue::try_new(EMAIL).unwrap().boxed();
    assert!(email_val.clone() == email_val.clone()); // same thing
    assert!(true_val != email_val.clone()); // different types
    assert!(email_val.clone() != string_val); // different types, same base value
    assert!(email_val.eq_box(&email_val.clone_box()));
    assert!(!email_val.eq_box(&string_val));
    assert!(!true_val.eq_box(&email_val));
}

#[test]
fn bool_value_from_str() {
    let true_val = "tRuE".parse::<BoolValue>().unwrap();
    assert_eq!(*true_val.val(), true);

    let false_val = "FaLse".parse::<BoolValue>().unwrap();
    assert_eq!(*false_val.val(), false);

    let bad_val_result = "hiya".parse::<BoolValue>();
    assert_eq!(bad_val_result, Err(InvalidValue::WrongValue));
}

#[test]
fn test_extract_valid_email() {
    let emails = vec![
        // valid
        ("email@example.com", "email"),
        ("firstname.lastname@example.com", "firstname.lastname"),
        ("email@subdomain.example.com", "email"),
        ("firstname+lastname@example.com", "firstname+lastname"),
        ("email@123.123.123.123", "email"),
        ("email@[123.123.123.123]", "email"),
        ("1234567890@example.com", "1234567890"),
        ("email@example-one.com", "email"),
        ("_______@example.com", "_______"),
        ("email@example.name", "email"),
        ("email@example.museum", "email"),
        ("email@example.co.jp", "email"),
        ("firstname-lastname@example.com", "firstname-lastname"),
    ];
    for (email, login) in emails {
        println!("Checking GOOD {}", email);
        let extracted_login = extract_login(email).unwrap();
        assert_eq!(extracted_login, login);
    }
}

#[test]
fn test_extract_invalid_email() {
    let bad_emails = vec![
        "plainaddress",
        "#@%^%#$@#$@#.com",
        "@example.com",
        "Joe Smith <email@example.com>",
        "email.example.com",
        "email@example@example.com",
        ".email@example.com",
        "email.@example.com",
        "email..email@example.com",
        "あいうえお@example.com",
        "email@example.com (Joe Smith)",
        "Abc..123@example.com",
        // strange
        "”(),:;<>[\\]@example.com",
        "just”not”right@example.com",
        "this\\ is\"really\"not\\allowed@example.com",
    ];
    for bad_email in bad_emails {
        println!("Checking BAD {}", bad_email);
        assert_eq!(extract_login(bad_email), None);
    }
}

#[test]
fn extract_login_counts_characters_as_bytes() {
    // the login is cut at the byte that has the number of the characters before the `@`
    assert_eq!(extract_login("éé@x.com"), Some("é"));
    assert_eq!(extract_login("é.@x"), Some("é"));
    assert_eq!(extract_login("é@x.com"), None);
    assert_eq!(extract_login("éé.ab@x.com"), None);
    assert_eq!(extract_login("a@"), Some("a"));
    assert_eq!(extract_login(""), None);
    assert_eq!(extract_login("a b@c.d"), None);
}

#[test]
fn local_part_chars() {
    for c in "azAZ09!#$%&*+-/=?^_`{|}~é".chars() {
        assert!(is_valid_email_local_part_char(c));
    }
    for c in ".@ ()<>[]:;,\"\\”".chars() {
        assert!(!is_valid_email_local_part_char(c));
    }
}

#[test]
fn test_good_email() {
    let email = EmailValue::try_new("a@b.com").unwrap();
    assert_eq!(email.val(), "a@b.com");
}

#[test]
fn test_bad_email() {
    let email_result = EmailValue::try_new("");
    assert_eq!(email_result, Err(InvalidValue::Empty));

    let email_result = EmailValue::try_new("ab.com");
    assert_eq!(email_result, Err(InvalidValue::BadFormat));
}

#[test]
fn email_needs_a_dotted_domain() {
    assert_eq!(EmailValue::try_new("email@example"), Err(InvalidValue::BadFormat));
    assert_eq!(EmailValue::try_new("a@"), Err(InvalidValue::BadFormat));
    assert!(EmailValue::try_new("a@b.").is_ok());
    assert_eq!(EmailValue::validate("not-an-email"), Err(InvalidValue::BadFormat));
    assert_eq!(EmailValue::validate("a@b.com"), Ok(()));
}

#[test]
fn email_value_test_fromstr() {
    assert!(matches!("".parse::<EmailValue>(), Err(_)));
    assert!(matches!("notemail".parse::<EmailValue>(), Err(_)));
    assert_eq!(
        "valid@email.com".parse::<EmailValue>().unwrap(),
        EmailValue::try_new("valid@email.com").unwrap()
    );
}

#[test]
fn email_var_reads_text() {
    let email_var = EmailVar::new(VarId::new(3)).boxed();
    let value = email_var.value_from_str("a@b.com").unwrap();
    assert!(value.is::<EmailValue>());
    assert_eq!(value.downcast::<EmailValue>().unwrap().val(), "a@b.com");
    assert_eq!(email_var.value_from_str("not-an-email"), Err(InvalidValue::BadFormat));
    assert_eq!(email_var.value_from_str(""), Err(InvalidValue::Empty));
}

#[test]
fn test_good_string() {
    let string_value = StringValue::try_new("hi").unwrap();
    assert_eq!(string_value.val(), "hi");
}

#[test]
fn test_bad_string() {
    assert_eq!(StringValue::try_new(""), Err(InvalidValue::Empty));
}

#[test]
fn string_value_test_fromstr() {
    assert!(matches!("".parse::<StringValue>(), Err(_)));
    assert_eq!("valid".parse::<StringValue>().unwrap(), StringValue::try_new("valid").unwrap());
}

#[test]
fn is_true() {
    let true_val = TrueValue::new();
    assert_eq!(true_val.val(), true);
    assert!(matches!(true_val.boxed().get_baseval(), BaseValue::Boolean(f) if f == true));
}

#[test]
fn true_value_partial_eq() {
    let true_val1 = TrueValue::new();
    let true_val2 = TrueValue::new();
    assert_eq!(true_val1, true_val2);

    let b1: Value = true_val1.boxed();
    let b2: Value = true_val2.boxed();
    assert!(b1 == b2);

    let string_val = StringValue::try_new("true").unwrap();
    let s: Value = string_val.boxed();
    assert!(b1 != s);
}

#[test]
fn true_value_from_str() {
    assert_eq!("true".parse::<TrueValue>(), Ok(TrueValue::new()));
    assert_eq!("tRuE".parse::<TrueValue>(), Ok(TrueValue::new()));
    assert_eq!("tRuEe".parse::<TrueValue>(), Err(InvalidValue::WrongValue));
}

#[test]
fn test_good_uri() {
    let uri_value = UriValue::try_new(GOOD_URI).unwrap();
    assert_eq!(uri_value.val(), GOOD_URI);
}

#[test]
fn test_bad_uri() {
    assert_eq!(UriValue::try_new(BAD_URI), Err(InvalidValue::BadFormat));
}

#[test]
fn uri_value_test_fromstr() {
    assert!(matches!(BAD_URI.parse::<UriValue>(), Err(_)));
    assert_eq!(GOOD_URI.parse::<UriValue>().unwrap(), UriValue::try_new(GOOD_URI).unwrap());
}

#[test]
fn base_values() {
    assert_eq!(
        StringValue::try_new("hi").unwrap().boxed().get_baseval(),
        BaseValue::String("hi".to_owned())
    );
    assert_eq!(
        EmailValue::try_new("a@b.com").unwrap().boxed().get_baseval(),
        BaseValue::String("a@b.com".to_owned())
    );
    assert_eq!(UriValue::try_new("/hi").unwrap().boxed().get_baseval(), BaseValue::String("/hi".to_owned()));
    assert_eq!(BoolValue::new(false).boxed().get_baseval(), BaseValue::Boolean(false));
    assert_eq!(BoolValue::new(true).boxed().kind(), ValueKind::Bool);
}

#[test]
fn value_valid_partial_eq() {
    const EMAIL1: &str = "a@b.com";
    const EMAIL2: &str = "ab@bc.com";

    // same var, same base value
    let email_var: Var = EmailVar::new(VarId::new(0xff00)).boxed();
    let email_val1 = EmailValue::try_new(EMAIL1).unwrap();
    let valid_email = ValidVal::try_new(email_val1.clone().boxed(), &email_var).unwrap();
    let valid_email_same = ValidVal::try_new(email_val1.boxed(), &email_var).unwrap();

    // same var, different base value
    let email_val2 = EmailValue::try_new(EMAIL2).unwrap();
    let valid_email_different = ValidVal::try_new(email_val2.boxed(), &email_var).unwrap();

    // different var, same base value
    let string_var: Var = StringVar::new(VarId::new(0xff01)).boxed();
    let string_val = StringValue::try_new(EMAIL1).unwrap();
    let valid_string = ValidVal::try_new(string_val.boxed(), &string_var).unwrap();

    assert_eq!(valid_email, valid_email_same);
    assert_ne!(valid_email, valid_email_different);
    assert_ne!(valid_email, valid_string);
    assert!(valid_email.eq_valid(&valid_email_same));
    assert!(!valid_email.eq_valid(&valid_email_different));
    assert!(!valid_email.eq_valid(&valid_string));
}

#[test]
fn valid_val_refuses_the_wrong_kind() {
    let string_var: Var = StringVar::new(VarId::new(1)).boxed();
    let refused = ValidVal::try_new(TrueValue::new().boxed(), &string_var);
    assert_eq!(refused, Err(InvalidValue::WrongType));
    let accepted = ValidVal::try_new(StringValue::try_new("x").unwrap().boxed(), &string_var).unwrap();
    assert_eq!(accepted.get_val().downcast::<StringValue>().unwrap().val(), "x");
}

#[test]
fn validate_val_type() {
    let email_addr = "is@email.com";
    let email_var = EmailVar::new(VarId::new(0xff00));

    let email_strval: Value = StringValue::try_new(email_addr).unwrap().boxed();
    let email_emailval: Value = EmailValue::try_new(email_addr).unwrap().boxed();
    assert!(matches!(email_var.validate_val_type(&email_strval), Err(InvalidValue::WrongType)));
    assert!(matches!(email_var.validate_val_type(&email_emailval), Ok(())));
}

#[test]
fn var_downcast() {
    let stringvar = StringVar::new(VarId::new(0xff00));
    let stringvar_boxed = stringvar.boxed();

    // try our helper
    assert!(matches!(stringvar_boxed.downcast::<StringVar>(), Some(_)));
    assert_eq!(stringvar_boxed.is::<StringVar>(), true);
    assert!(matches!(stringvar_boxed.downcast::<UriVar>(), None));
    assert_eq!(stringvar_boxed.is::<UriVar>(), false);
}

#[test]
fn vars_read_their_kind() {
    let id = VarId::new(9);
    assert_eq!(*StringVar::new(id).boxed().id(), id);
    assert!(StringVar::new(id).value_from_str("x").unwrap().is::<StringValue>());
    assert_eq!(StringVar::new(id).value_from_str(""), Err(InvalidValue::Empty));
    assert!(UriVar::new(id).value_from_str("/hi").unwrap().is::<UriValue>());
    assert_eq!(UriVar::new(id).value_from_str(BAD_URI), Err(InvalidValue::BadFormat));
    assert!(TrueVar::new(id).value_from_str("TRUE").unwrap().is::<TrueValue>());
    assert_eq!(TrueVar::new(id).value_from_str("false"), Err(InvalidValue::WrongValue));
    let no = BoolVar::new(id).value_from_str("False").unwrap();
    assert_eq!(*no.downcast::<BoolValue>().unwrap().val(), false);
    assert_eq!(BoolVar::new(id).boxed().value_from_str("2"), Err(InvalidValue::WrongValue));
    assert_eq!(BoolVar::new(id).boxed().kind(), ValueKind::Bool);
    assert_eq!(InvalidValue::WrongValue.to_string(), "WrongValue");
}
