use passenger_resource_management::domain::tier::Tier;
#[test]
fn tp_r2_s1_silver_can_access_silver() {
    assert!(Tier::Silver.can_access(Tier::Silver));
}

#[test]
fn tp_r2_s2_silver_cannot_access_gold() {
    assert!(!Tier::Silver.can_access(Tier::Gold));
}

#[test]
fn tp_r2_s3_silver_cannot_access_platinum() {
    assert!(!Tier::Silver.can_access(Tier::Platinum));
}

#[test]
fn tp_r2_s4_gold_can_access_silver() {
    assert!(Tier::Gold.can_access(Tier::Silver));
}

#[test]
fn tp_r2_s5_gold_can_access_gold() {
    assert!(Tier::Gold.can_access(Tier::Gold));
}

#[test]
fn tp_r2_s6_gold_cannot_access_platinum() {
    assert!(!Tier::Gold.can_access(Tier::Platinum));
}

#[test]
fn tp_r2_s7_platinum_can_access_silver() {
    assert!(Tier::Platinum.can_access(Tier::Silver));
}

#[test]
fn tp_r2_s8_platinum_can_access_gold() {
    assert!(Tier::Platinum.can_access(Tier::Gold));
}

#[test]
fn tp_r2_s9_platinum_can_access_platinum() {
    assert!(Tier::Platinum.can_access(Tier::Platinum));
}

#[test]
fn tp_r1_s10_rank_silver_is_one() {
    assert_eq!(Tier::Silver.rank(), 1);
}

#[test]
fn tp_r1_s11_rank_gold_is_two() {
    assert_eq!(Tier::Gold.rank(), 2);
}

#[test]
fn tp_r1_s12_rank_platinum_is_four() {
    assert_eq!(Tier::Platinum.rank(), 4);
}

#[test]
fn tp_r1_s23_rank_diamond_is_three() {
    assert_eq!(Tier::Diamond.rank(), 3);
}

#[test]
fn tp_e1_s13_try_from_silver_ok() {
    assert_eq!(Tier::try_from("Silver"), Ok(Tier::Silver));
}

#[test]
fn tp_e1_s14_try_from_lowercase_is_err() {
    assert!(Tier::try_from("platinum").is_err());
}

#[test]
fn tp_e1_s15_try_from_unknown_is_err() {
    assert!(Tier::try_from("Bronze").is_err());
}

#[test]
fn tp_e1_s24_try_from_diamond_ok() {
    assert_eq!(Tier::try_from("Diamond"), Ok(Tier::Diamond));
}

#[test]
fn tp_r2_s16_diamond_can_access_silver() {
    assert!(Tier::Diamond.can_access(Tier::Silver));
}

#[test]
fn tp_r2_s17_diamond_can_access_gold() {
    assert!(Tier::Diamond.can_access(Tier::Gold));
}

#[test]
fn tp_r2_s18_diamond_can_access_diamond() {
    assert!(Tier::Diamond.can_access(Tier::Diamond));
}

#[test]
fn tp_r2_s19_diamond_cannot_access_platinum() {
    assert!(!Tier::Diamond.can_access(Tier::Platinum));
}

#[test]
fn tp_r2_s20_silver_cannot_access_diamond() {
    assert!(!Tier::Silver.can_access(Tier::Diamond));
}

#[test]
fn tp_r2_s21_gold_cannot_access_diamond() {
    assert!(!Tier::Gold.can_access(Tier::Diamond));
}

#[test]
fn tp_r2_s22_platinum_can_access_diamond() {
    assert!(Tier::Platinum.can_access(Tier::Diamond));
}
