use invoicer::entity::us::{Ein, Tin};
use invoicer::time::TimeError;
use invoicer::{Address, PaymentMethod, RegistrationNumber, RegistrationNumberError, Time};

#[test]
fn test_address() {
    let address = Address::new(
        "Praha".to_string(),
        "Husova".to_string(),
        "12000".to_string(),
        123,
        None,
    );

    assert_eq!(address.get_first_line(), "Husova 123");
    assert_eq!(address.get_second_line(), "120 00 Praha");
}

#[test]
fn address_with_orientation_number_and_short_postal_code() {
    let address = Address::new("Brno".to_string(), "Lidická".to_string(), "60".to_string(), 7, Some(12));
    assert_eq!(address.get_first_line(), "Lidická 7/12");
    assert_eq!(address.get_second_line(), "60     Brno");
}

#[test]
fn test_valid_tin() {
    let tin: Result<Tin, _> = "123-45-6789".parse();
    assert!(tin.is_ok());
    assert_eq!(tin.unwrap().get(), "123-45-6789");
}

#[test]
fn test_invalid_tin() {
    let invalid_tins = ["123-45-678", "1234-56-7890", "123-45-678A", "1234567890", "123--45-6789"];

    for tin in invalid_tins {
        assert!(tin.parse::<Tin>().is_err());
    }
}

#[test]
fn test_valid_ein() {
    let ein: Result<Ein, _> = "12-3456789".parse();
    assert!(ein.is_ok());
    assert_eq!(ein.unwrap().get(), "12-3456789");
}

#[test]
fn test_invalid_ein() {
    let invalid_eins = ["12--4-678", "123-456789", "12-345678A", "123456789", "12345678-", "12--3456789"];

    for ein in invalid_eins {
        assert!(ein.parse::<Ein>().is_err());
    }
}

#[test]
fn test_registration_number() {
    assert!(RegistrationNumber::valid("27082440").is_some());
    assert!(RegistrationNumber::valid("CZ00000000").is_none());
}

#[test]
fn test_registration_number_parse() {
    let number: Result<RegistrationNumber, RegistrationNumberError> = "27082440".parse();

    assert!(number.is_ok());
    assert_eq!(number.unwrap().get(), "27082440");
}

#[test]
fn registration_number_with_wrong_check_digit_or_length() {
    assert!(RegistrationNumber::valid("27082441").is_none());
    assert!(RegistrationNumber::valid("").is_none());
    assert_eq!(
        RegistrationNumber::parse("2708244"),
        Err(RegistrationNumberError::InvalidNumber)
    );
    assert_eq!(
        RegistrationNumber::parse("27082441"),
        Err(RegistrationNumberError::InvalidNumber)
    );
    assert_eq!(RegistrationNumberError::InvalidNumber.message(), "Neplatné IČO");
}

#[test]
fn registration_number_of_another_company() {
    // The weighted sum of 2,9,2,1,0,3,7 is 119, which leaves 9: the check digit is 2.
    assert!(RegistrationNumber::valid("29210372").is_some());
    assert!(RegistrationNumber::valid("29210373").is_none());
}

#[test]
fn time_parses_hours_and_minutes() {
    assert_eq!(Time::parse("1:30"), Ok(Time::new(1, 30)));
    assert_eq!(Time::parse("2:05:99"), Ok(Time::new(2, 5)));
    assert_eq!(Time::parse("+3:0"), Ok(Time::new(3, 0)));
    assert_eq!(Time::parse("x:30"), Err(TimeError::NoHours));
    assert_eq!(Time::parse("5"), Err(TimeError::NoMinutes));
    assert_eq!(Time::parse("5:"), Err(TimeError::NoMinutes));
    assert_eq!(Time::parse("99999999999:1"), Err(TimeError::NoHours));
    let t: Time = "4:15".parse().unwrap();
    assert_eq!((t.hours(), t.minutes()), (4, 15));
}

#[test]
fn payment_methods_parse_and_describe() {
    assert_eq!(PaymentMethod::parse("cash"), Ok(PaymentMethod::Cash));
    assert_eq!(PaymentMethod::parse("card 1234 5678"), Ok(PaymentMethod::Card("1234 5678".to_string())));
    assert_eq!(PaymentMethod::parse("bank 202403"), Ok(PaymentMethod::BankTransfer("202403".to_string())));
    assert_eq!(PaymentMethod::parse("bank"), Ok(PaymentMethod::BankTransfer(String::new())));
    assert_eq!(
        PaymentMethod::parse("cheque"),
        Err("Unknown payment method: cheque".to_string())
    );
    assert_eq!(PaymentMethod::Card("42".to_string()).description(), "Platbení kartou: 42");
    assert_eq!(PaymentMethod::BankTransfer("1".to_string()).name(), "Bankovním převodem");
}
