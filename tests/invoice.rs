use invoicer::ares::{AresAdresa, AresResponse, AresSidlo};
use invoicer::entity::eu;
use invoicer::metrics::FontMetrics;
use invoicer::{
    Address, Amount, Currency, Date, Iban, Invoice, InvoiceError, InvoiceItem, InvoiceItemType, PaymentMethod,
    RegistrationNumber, Time, ToBankAccountNumber,
};

fn amount(mantissa: i128, scale: u32) -> Amount {
    Amount::new(mantissa, scale).unwrap()
}

fn party(number: &str, name: &str) -> eu::Entity {
    eu::Entity::new(
        RegistrationNumber::parse(number).unwrap(),
        name.to_string(),
        Address::new("Praha".to_string(), "Husova".to_string(), "12000".to_string(), 123, None),
        None,
    )
}

fn invoice_with(items: Vec<InvoiceItem>, method: PaymentMethod) -> Invoice {
    Invoice::new(
        amount(202403, 0),
        party("27082440", "Dodavatel s.r.o."),
        party("29210372", "Odběratel a.s."),
        Iban::parse("CZ65 0800 0000 1920 0014 5399").unwrap(),
        method,
        items,
        Date::new(2024, 3, 5).unwrap(),
        Date::new(2024, 3, 19).unwrap(),
        Currency::from_code("CZK").unwrap(),
        Some("Děkujeme".to_string()),
    )
}

fn font() -> FontMetrics {
    FontMetrics { units_per_em: 1000, advances: vec![('i', 250)], default_advance: 500, space_advance: 250 }
}

#[test]
fn item_prices() {
    let hours = InvoiceItem::new(InvoiceItemType::Hours(Time::new(1, 30)), "work".to_string(), amount(100, 0));
    let p = hours.price().unwrap();
    assert_eq!((p.mantissa(), p.scale()), (15000, 2));

    let pieces = InvoiceItem::new(InvoiceItemType::Quantity(3), "parts".to_string(), amount(50, 0));
    let p = pieces.price().unwrap();
    assert_eq!((p.mantissa(), p.scale()), (150, 0));

    let other = InvoiceItem::new(InvoiceItemType::Other("paušál".to_string()), "anything".to_string(), amount(75, 0));
    let p = other.price().unwrap();
    assert_eq!((p.mantissa(), p.scale()), (75, 0));
}

#[test]
fn hours_price_rounds_to_the_nearest_hundredth_of_the_unit() {
    let item = InvoiceItem::new(InvoiceItemType::Hours(Time::new(1, 20)), String::new(), amount(100, 0));
    let p = item.price().unwrap();
    assert_eq!((p.mantissa(), p.scale()), (13333, 2));
    let item = InvoiceItem::new(InvoiceItemType::Hours(Time::new(0, 40)), String::new(), amount(100, 0));
    let p = item.price().unwrap();
    assert_eq!((p.mantissa(), p.scale()), (6667, 2));
}

#[test]
fn out_of_range_prices_are_refused() {
    let max = amount(79228162514264337593543950335, 0);
    let item = InvoiceItem::new(InvoiceItemType::Quantity(2), String::new(), max);
    assert_eq!(item.price(), Err(InvoiceError::InvalidAmount));
    let fine = amount(1, 27);
    let item = InvoiceItem::new(InvoiceItemType::Hours(Time::new(1, 0)), String::new(), fine);
    assert_eq!(item.price(), Err(InvoiceError::InvalidAmount));
    let inv = invoice_with(
        vec![InvoiceItem::new(InvoiceItemType::Other(String::new()), String::new(), max),
             InvoiceItem::new(InvoiceItemType::Other(String::new()), String::new(), max)],
        PaymentMethod::Cash,
    );
    assert_eq!(inv.items_sum(), Err(InvoiceError::InvalidAmount));
}

#[test]
fn grand_total_is_the_sum_in_any_order() {
    let a = InvoiceItem::new(InvoiceItemType::Quantity(3), "a".to_string(), amount(50, 0));
    let b = InvoiceItem::new(InvoiceItemType::Hours(Time::new(1, 30)), "b".to_string(), amount(100, 0));
    let c = InvoiceItem::new(InvoiceItemType::Other("x".to_string()), "c".to_string(), amount(7525, 2));
    let one = invoice_with(vec![a.clone(), b.clone(), c.clone()], PaymentMethod::Cash);
    let two = invoice_with(vec![c, a, b], PaymentMethod::Cash);
    let t1 = one.items_sum().unwrap();
    let t2 = two.items_sum().unwrap();
    assert_eq!((t1.mantissa(), t1.scale()), (37525, 2));
    assert_eq!((t2.mantissa(), t2.scale()), (37525, 2));
}

#[test]
fn no_items_total_zero() {
    let inv = invoice_with(vec![], PaymentMethod::Cash);
    let t = inv.items_sum().unwrap();
    assert_eq!(t.mantissa(), 0);
    let page = inv.layout(&font()).unwrap();
    assert_eq!(page.grand_total, "0,00 Kč");
    assert!(page.rows.is_empty());
    assert!(page.qr.is_none());
}

#[test]
fn one_item_invoice_end_to_end() {
    let item = InvoiceItem::new(
        InvoiceItemType::Hours(Time::new(1, 30)),
        "Programování".to_string(),
        amount(350, 0),
    );
    let inv = invoice_with(vec![item], PaymentMethod::BankTransfer("202403".to_string()));
    let total = inv.items_sum().unwrap();
    assert_eq!(invoicer::money::format(&total, &Currency::from_code("CZK").unwrap()), "525,00 Kč");
    let descriptor = inv.payment_descriptor(&total).unwrap();
    assert_eq!(descriptor, "SPD*1.0*ACC:CZ6508000000192000145399*AM:525.00*CC:CZK*X-VS:202403");
    assert!(descriptor.contains("*AM:525.00*"));
    let qr = inv.qr_code(&total).unwrap();
    assert!(qr.starts_with("<svg"));

    let page = inv.layout(&font()).unwrap();
    assert_eq!(page.grand_total, "525,00 Kč");
    assert_eq!(page.rows.len(), 1);
    assert_eq!(page.rows[0].quantity, "1.5 hod");
    assert_eq!(page.rows[0].unit_price, "350,00 Kč");
    assert_eq!(page.rows[0].total, "525,00 Kč");
    assert_eq!(page.heading.lines, vec!["Faktura 202403".to_string()]);
    assert_eq!(
        page.payment.lines,
        vec![
            "Bankovní účet 192000145399/0800".to_string(),
            "Variabilní symbol 202403".to_string(),
            "Způsob platby Bankovním převodem".to_string(),
        ]
    );
    assert_eq!(
        page.dates.lines,
        vec!["Datum vystavení 05. 03. 2024".to_string(), "Datum splatnosti 19. 03. 2024".to_string()]
    );
    assert_eq!(page.contractor.lines[0], "DODAVATEL");
    assert_eq!(page.client.lines[0], "ODBĚRATEL");
    assert_eq!(page.contractor.lines[3], "120 00 Praha");
    assert_eq!(page.contractor.lines[4], "IČO 27082440");
    assert_eq!(page.contractor.lines[5], "Neplátce DPH");
    assert!(page.qr.is_some());
    assert!(page.payment.y > page.contractor.y);
    assert!(page.table.rule_y > page.payment.y);
    assert_eq!(page.note, Some("Děkujeme".to_string()));
}

#[test]
fn no_qr_code_without_bank_transfer() {
    let item = InvoiceItem::new(InvoiceItemType::Quantity(1), "x".to_string(), amount(1, 0));
    let inv = invoice_with(vec![item], PaymentMethod::Card("4111".to_string()));
    let total = inv.items_sum().unwrap();
    assert!(inv.qr_code(&total).is_none());
    assert!(inv.payment_descriptor(&total).is_none());
    let page = inv.layout(&font()).unwrap();
    assert_eq!(page.payment.lines.len(), 2);
}

#[test]
fn bank_account_number_from_iban() {
    let iban = Iban::parse("CZ6508000000192000145399").unwrap();
    assert_eq!(iban.electronic_str(), "CZ6508000000192000145399");
    assert_eq!(iban.to_paper(), "CZ65 0800 0000 1920 0014 5399");
    assert_eq!(iban.to_bank_account_number(), "192000145399/0800");
    assert!(Iban::parse("CZ6508000000192000145398").is_none());
}

#[test]
fn item_lines_parse() {
    let item = InvoiceItem::parse("1:30 350 Programování webu").unwrap();
    assert_eq!(item.item_type, InvoiceItemType::Hours(Time::new(1, 30)));
    assert_eq!(item.description, "Programování webu");
    assert_eq!((item.price_per_unit.mantissa(), item.price_per_unit.scale()), (350, 0));
    let item: InvoiceItem = "3 49.90".parse().unwrap();
    assert_eq!(item.item_type, InvoiceItemType::Quantity(3));
    assert_eq!(item.description, "");
    assert_eq!((item.price_per_unit.mantissa(), item.price_per_unit.scale()), (4990, 2));
    let item = InvoiceItem::parse("hod 10 x").unwrap();
    assert_eq!(item.item_type, InvoiceItemType::Other("hod".to_string()));
    assert_eq!(InvoiceItem::parse("ks"), Err("No price per unit".to_string()));
    assert_eq!(InvoiceItem::parse("3 abc x"), Err("Invalid price".to_string()));
}

#[test]
fn item_type_texts() {
    assert_eq!(InvoiceItemType::Hours(Time::new(1, 30)).text(), "1 hod30 min");
    assert_eq!(InvoiceItemType::Hours(Time::new(2, 0)).text(), "2 hod");
    assert_eq!(InvoiceItemType::Quantity(3).text(), "3 ks");
    assert_eq!(InvoiceItemType::Other("m2".to_string()).text(), "m2");
    assert_eq!(InvoiceItemType::Hours(Time::new(1, 20)).quantity_label(), "1.33 hod");
    assert_eq!(InvoiceItemType::Hours(Time::new(0, 3)).quantity_label(), "0.05 hod");
    assert_eq!(InvoiceItemType::Hours(Time::new(2, 0)).quantity_label(), "2 hod");
    assert_eq!(InvoiceItemType::Quantity(7).quantity_label(), "7 ks");
    assert_eq!(InvoiceItemType::parse("12"), InvoiceItemType::Quantity(12));
}

#[test]
fn dates() {
    assert_eq!(Date::new(2024, 3, 5).unwrap().format(), "05. 03. 2024");
    assert_eq!(Date::new(987, 12, 31).unwrap().format(), "31. 12. 0987");
    assert!(Date::new(2023, 2, 29).is_none());
    assert!(Date::new(2024, 2, 29).is_some());
    assert!(Date::new(2024, 13, 1).is_none());
    assert!(Date::new(2024, 4, 19).unwrap().is_after(&Date::new(2024, 3, 31).unwrap()));
}

#[test]
fn registry_record_becomes_an_entity() {
    let office = AresSidlo {
        country_code: "CZ".to_string(),
        country_name: "Česká republika".to_string(),
        region_code: 19,
        region_name: "Hlavní město Praha".to_string(),
        district_code: None,
        district_name: None,
        municipality_code: 554782,
        municipality_name: "Praha".to_string(),
        house_number: 1522,
        municipality_part: 490148,
        municipality_part_name: "Holešovice".to_string(),
        address_place_code: 22116923,
        postal_code: 17000,
        text_address: "Jankovcova 1522/53, Holešovice, 17000 Praha 7".to_string(),
        house_number_type: 1,
        address_normalized: true,
        orientation_number: Some(53),
        street: Some("Jankovcova".to_string()),
        city_part: Some("Praha-Holešovice".to_string()),
    };
    let record = AresResponse {
        ico: "27082440".to_string(),
        name: "Alza.cz a.s.".to_string(),
        office,
        address: AresAdresa { first_line: String::new(), second_line: String::new() },
        dic: Some("CZ27082440".to_string()),
    };
    let e = record.into_entity(RegistrationNumber::parse("27082440").unwrap());
    assert_eq!(e.name, "Alza.cz a.s.");
    assert_eq!(e.address.city, "Praha - Holešovice");
    assert_eq!(e.address.get_first_line(), "Jankovcova 1522/53");
    assert_eq!(e.address.get_second_line(), "170 00 Praha - Holešovice");
    assert_eq!(e.vat_number, Some("CZ27082440".to_string()));
    let lines = e.info_lines("DODAVATEL");
    assert_eq!(lines[5], "DPH CZ27082440");
}
