use sensor_hub::suid::{generate_fixed, get_u64_pair, SuidGenerator};

#[test]
fn suid_generate_test() {
    let mut generator = SuidGenerator::new();

    let input = "example.com";
    let uuid1 = generator.generate(input).unwrap();
    println!("First uuid: {uuid1:?}");

    let result = generator.generate(input);
    assert!(result.is_err());
    println!("Second call result: {result:?}");

    let fixed_uuid = generate_fixed(input);
    assert_eq!(uuid1, fixed_uuid);

    assert_eq!(generator.get_generated_count(), 1);
}

#[test]
fn suid_multiple_inputs_test() {
    let mut generator = SuidGenerator::new();

    let suid1 = generator.generate("input1").unwrap();
    let suid2 = generator.generate("input2").unwrap();
    let suid3 = generator.generate("input3").unwrap();

    println!("suid1: {suid1:?}");
    println!("suid2: {suid2:?}");
    println!("suid3: {suid3:?}");

    assert_ne!(suid1, suid2);
    assert_ne!(suid2, suid3);
    assert_ne!(suid1, suid3);

    assert_eq!(generator.get_generated_count(), 3);

    assert!(generator.generate("input1").is_err());
    assert!(generator.generate("input2").is_err());
    assert!(generator.generate("input3").is_err());
}

#[test]
fn suid_fixed_generate_test() {
    let input = "example.com";
    let suid = generate_fixed(input);
    let suid2 = generate_fixed(input);
    println!("Fixed suid: {suid:?}, suid2: {suid2:?}");
    assert_eq!(suid, suid2);
    assert_eq!(suid.to_string(), "cfbff0d1-9375-5685-968c-48ce8b15ae17");
}

#[test]
fn suid_u64_pair_test() {
    let input = "example.com";
    let suid = generate_fixed(input);
    let (high, low) = get_u64_pair(&suid);
    println!("pair high - {high:#x}, low - {low:#x}");
    assert_eq!(high, 0xcfbff0d193755685);
    assert_eq!(low, 0x968c48ce8b15ae17);
}

#[test]
fn uuid_generate_test() {
    let mut generator = SuidGenerator::new();

    let input = "example.com";
    let uuid1 = generator.generate(input).unwrap();
    println!("First uuid: {uuid1:?}");

    let result = generator.generate(input);
    assert!(result.is_err());
    println!("Second call result: {result:?}");

    let fixed_uuid = generate_fixed(input);
    assert_eq!(uuid1, fixed_uuid);

    assert_eq!(generator.get_generated_count(), 1);
}

#[test]
fn uuid_multiple_inputs_test() {
    let mut generator = SuidGenerator::new();

    let uuid1 = generator.generate("input1").unwrap();
    let uuid2 = generator.generate("input2").unwrap();
    let uuid3 = generator.generate("input3").unwrap();

    println!("uuid1: {uuid1:?}");
    println!("uuid2: {uuid2:?}");
    println!("uuid3: {uuid3:?}");

    assert_ne!(uuid1, uuid2);
    assert_ne!(uuid2, uuid3);
    assert_ne!(uuid1, uuid3);

    assert_eq!(generator.get_generated_count(), 3);

    assert!(generator.generate("input1").is_err());
    assert!(generator.generate("input2").is_err());
    assert!(generator.generate("input3").is_err());
}

#[test]
fn uuid_fixed_generate_test() {
    let input = "example.com";
    let uuid = generate_fixed(input);
    let uuid2 = generate_fixed(input);
    println!("Fixed uuid: {uuid:?}, uuid2: {uuid2:?}");
    assert_eq!(uuid, uuid2);
    assert_eq!(uuid.to_string(), "cfbff0d1-9375-5685-968c-48ce8b15ae17");
}

#[test]
fn uuid_u64_pair_test() {
    let input = "example.com";
    let uuid = generate_fixed(input);
    let (high, low) = get_u64_pair(&uuid);
    println!("pair high - {high:#x}, low - {low:#x}");
    assert_eq!(high, 0xcfbff0d193755685);
    assert_eq!(low, 0x968c48ce8b15ae17);
}
