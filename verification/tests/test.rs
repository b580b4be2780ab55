use erased_discriminant::{Discriminant, TokenSource, TypeToken};
use std::collections::HashSet;

enum Enum<'a> {
    A(#[allow(dead_code)] &'a str),
    B,
}

enum DifferentEnum {
    A,
}

fn enum_identity(value: &Enum) -> Vec<u8> {
    match value {
        Enum::A(_) => vec![0u8],
        Enum::B => vec![1u8],
    }
}

fn different_enum_identity(value: &DifferentEnum) -> Vec<u8> {
    match value {
        DifferentEnum::A => vec![0u8],
    }
}

fn tokens() -> (TypeToken, TypeToken) {
    let mut source = TokenSource::new();
    let enum_token = source.fresh();
    let different_enum_token = source.fresh();
    (enum_token, different_enum_token)
}

#[test]
fn test_eq() {
    let (enum_token, different_enum_token) = tokens();

    let temporary_string = "...".to_owned();
    let a = Enum::A(&temporary_string);
    let b = Enum::B;
    let a_discriminant = Discriminant::of(enum_token, enum_identity(&a));
    let b_discriminant = Discriminant::of(enum_token, enum_identity(&b));
    drop(temporary_string);
    assert_eq!(a_discriminant, a_discriminant);
    assert_ne!(a_discriminant, b_discriminant);

    let different_discriminant = Discriminant::of(
        different_enum_token,
        different_enum_identity(&DifferentEnum::A),
    );
    assert_ne!(a_discriminant, different_discriminant);
    assert_ne!(b_discriminant, different_discriminant);
}

#[test]
fn test_hashset() {
    let (enum_token, different_enum_token) = tokens();

    let mut set = HashSet::new();

    let temporary_string = "...".to_owned();
    set.insert(Discriminant::of(
        enum_token,
        enum_identity(&Enum::A(&temporary_string)),
    ));
    set.insert(Discriminant::of(enum_token, enum_identity(&Enum::B)));
    set.insert(Discriminant::of(
        different_enum_token,
        different_enum_identity(&DifferentEnum::A),
    ));
    drop(temporary_string);
    assert_eq!(set.len(), 3);

    set.insert(Discriminant::of(
        enum_token,
        enum_identity(&Enum::A("other string")),
    ));
    set.insert(Discriminant::of(enum_token, enum_identity(&Enum::B)));
    set.insert(Discriminant::of(
        different_enum_token,
        different_enum_identity(&DifferentEnum::A),
    ));
    assert_eq!(set.len(), 3);

    assert_eq!(set, set.clone());
}
