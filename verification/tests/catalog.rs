use std::sync::Arc;

use extenddb_storage::management::CatalogStore;

struct KeyedCatalog {
    key: Option<String>,
}

impl CatalogStore for KeyedCatalog {
    fn cached_encryption_key(&self) -> Option<String> {
        self.key.clone()
    }
}

#[test]
fn catalog_store_is_dyn_compatible() {
    // This function just needs to compile - it's never called
    fn _assert_dyn(_: Arc<dyn CatalogStore>) {}
}

#[test]
fn a_catalog_behind_a_shared_pointer_hands_out_its_cached_key() {
    let store: Arc<dyn CatalogStore> = Arc::new(KeyedCatalog { key: Some("k3y".to_string()) });
    assert_eq!(store.cached_encryption_key().as_deref(), Some("k3y"));
    let empty: Arc<dyn CatalogStore> = Arc::new(KeyedCatalog { key: None });
    assert_eq!(empty.cached_encryption_key(), None);
}
