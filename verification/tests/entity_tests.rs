use pleme_core::entity::{table_name_for, cache_key_for, cache_pattern};

#[test]
fn test_domain_model_macro() {
    let entity_id = "7f9c24e8";
    // Test that methods are generated
    let _cache_key = cache_key_for("default_product", "TestEntity", entity_id);
    assert_eq!(table_name_for("TestEntity"), "TestEntitys");
}

#[test]
fn test_cache_keys() {
    assert_eq!(
        cache_key_for("default_product", "TestEntity", "42"),
        "default_product:testentity:42",
    );
    assert_eq!(cache_pattern("shop", "Payment"), "shop:payment:*");
}
