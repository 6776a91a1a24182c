use music_genres::api::GenreApi;
use music_genres::compile::compile;
use music_genres::entry::GenreType;
use music_genres::genres::default_taxonomy;
use music_genres::ident::GenreId;
use music_genres::normalize::display_name_of;
use music_genres::normalize::normalize_id;
use music_genres::taxonomy::Category;
use music_genres::taxonomy::Subcategory;

fn cat(id: &str, name: &str, subs: Vec<Subcategory>) -> Category {
    Category::new(id.to_string(), name.to_string(), subs)
}

fn sub(id: &str) -> Subcategory {
    Subcategory::new(id.to_string())
}

#[test]
fn normalize_snake_case() {
    assert_eq!(normalize_id("hard_rock"), "HardRock");
    assert_eq!(normalize_id("lofi_hip_hop"), "LofiHipHop");
    assert_eq!(normalize_id("r_and_b"), "RAndB");
}

#[test]
fn normalize_kebab_and_space() {
    assert_eq!(normalize_id("k-pop"), "KPop");
    assert_eq!(normalize_id("new age"), "NewAge");
    assert_eq!(normalize_id("a-b c_d"), "ABCD");
}

#[test]
fn normalize_degenerate_inputs() {
    assert_eq!(normalize_id(""), "");
    assert_eq!(normalize_id("_-_ "), "");
    assert_eq!(normalize_id("__rock__"), "Rock");
}

#[test]
fn normalize_passes_uncased_characters_through() {
    assert_eq!(normalize_id("été"), "été");
    assert_eq!(normalize_id("3d_audio"), "3dAudio");
}

#[test]
fn display_name_derivation() {
    assert_eq!(display_name_of("hard_rock"), "Hard Rock");
    assert_eq!(display_name_of("k_pop"), "K Pop");
    assert_eq!(display_name_of("grunge"), "Grunge");
    assert_eq!(display_name_of(""), "");
}

#[test]
fn concrete_scenario() {
    let taxonomy = vec![cat("rock", "Rock", vec![sub("hard_rock"), sub("punk_rock")])];
    let compiled = compile(&taxonomy).expect("no collision in this taxonomy");

    let symbols: Vec<&str> = compiled.members.iter().map(|m| m.symbol.as_str()).collect();
    assert_eq!(symbols, vec!["Rock", "HardRock", "PunkRock"]);
    let ordinals: Vec<usize> = compiled.entries.iter().map(|e| e.genre_id.ordinal).collect();
    assert_eq!(ordinals, vec![0, 1, 2]);

    let api = GenreApi::from_entries(compiled.entries);
    let hard_rock = api.get_genre_by_id("hard_rock").expect("hard_rock is a valid id");
    assert_eq!(hard_rock.name(), "Hard Rock");
    assert_eq!(hard_rock.parent_id(), Some("rock".to_string()));
    assert_eq!(hard_rock.genre_id().ordinal(), 1);
    assert!(matches!(hard_rock.genre_type(), GenreType::Subgenre));

    assert!(!api.is_valid_genre_id("unknown"));
    assert!(api.is_valid_genre_id("rock"));

    let subs = api.get_subgenres_of("rock");
    let sub_ids: Vec<&str> = subs.iter().map(|e| e.id.as_str()).collect();
    assert_eq!(sub_ids, vec!["hard_rock", "punk_rock"]);
}

#[test]
fn empty_category_scenario() {
    let taxonomy = vec![
        cat("ambient", "Ambient", vec![]),
        cat("rock", "Rock", vec![sub("hard_rock")]),
    ];
    let compiled = compile(&taxonomy).expect("no collision in this taxonomy");
    assert_eq!(compiled.members.len(), 3);
    assert_eq!(compiled.members[0].symbol, "Ambient");

    let api = GenreApi::from_entries(compiled.entries);
    assert!(api.get_subgenres_of("ambient").is_empty());
    assert!(api.is_valid_genre_id("ambient"));
}

#[test]
fn collision_is_rejected_naming_both_ids() {
    let taxonomy = vec![
        cat("rock", "Rock", vec![sub("hard_rock")]),
        cat("pop", "Pop", vec![sub("hard-rock")]),
    ];
    let err = compile(&taxonomy).expect_err("colliding symbolic names must be rejected");
    assert_eq!(err.first_id, "hard_rock");
    assert_eq!(err.second_id, "hard-rock");
}

#[test]
fn collision_between_category_and_subcategory() {
    let taxonomy = vec![cat("new_age", "New Age", vec![sub("new-age")])];
    let err = compile(&taxonomy).expect_err("category and subcategory collide");
    assert_eq!(err.first_id, "new_age");
    assert_eq!(err.second_id, "new-age");
}

#[test]
fn regeneration_is_byte_identical() {
    let first = compile(&default_taxonomy()).expect("bundled taxonomy compiles");
    let second = compile(&default_taxonomy()).expect("bundled taxonomy compiles");
    assert_eq!(first.members.len(), second.members.len());
    for (a, b) in first.members.iter().zip(second.members.iter()) {
        assert_eq!(a.symbol, b.symbol);
        assert_eq!(a.group_marker, b.group_marker);
    }
    assert_eq!(first.entries.len(), second.entries.len());
    for (a, b) in first.entries.iter().zip(second.entries.iter()) {
        assert_eq!(a.id, b.id);
        assert_eq!(a.name, b.name);
        assert_eq!(a.genre_id, b.genre_id);
    }
}

#[test]
fn traversal_lockstep() {
    let compiled = compile(&default_taxonomy()).expect("bundled taxonomy compiles");
    assert_eq!(compiled.members.len(), compiled.entries.len());
    for (i, (m, e)) in compiled.members.iter().zip(compiled.entries.iter()).enumerate() {
        assert_eq!(e.genre_id.ordinal, i);
        assert_eq!(m.symbol, normalize_id(&e.id));
    }
}

#[test]
fn bundled_taxonomy_leading_ordinals() {
    let compiled = compile(&default_taxonomy()).expect("bundled taxonomy compiles");
    assert_eq!(compiled.entries.len(), 142);
    let symbols: Vec<&str> = compiled.members.iter().take(4).map(|m| m.symbol.as_str()).collect();
    assert_eq!(symbols, vec!["Rock", "HardRock", "ClassicRock", "PunkRock"]);
    assert_eq!(compiled.members[0].group_marker, Some("Rock".to_string()));
    assert_eq!(compiled.members[1].group_marker, None);
    assert_eq!(compiled.members.last().unwrap().symbol, "Healing");
}

#[test]
fn find_round_trip_over_bundled_taxonomy() {
    let compiled = compile(&default_taxonomy()).expect("bundled taxonomy compiles");
    let api = GenreApi::from_entries(compiled.entries);
    let all = api.get_all_genres();
    for e in &all {
        let found = api.get_genre_by_id(&e.id).expect("every entry is findable by its id");
        assert_eq!(found.id, e.id);
        assert_eq!(found.name, e.name);
        assert_eq!(found.genre_id, e.genre_id);
    }
}

#[test]
fn canonical_strings_are_distinct() {
    let compiled = compile(&default_taxonomy()).expect("bundled taxonomy compiles");
    let api = GenreApi::from_entries(compiled.entries);
    let mut seen = std::collections::HashSet::new();
    for e in api.get_all_genres() {
        let s = api.genre_id_to_string(e.genre_id).expect("every entry ordinal is in range");
        assert!(seen.insert(s), "canonical string forms must be pairwise distinct");
    }
    assert_eq!(seen.len(), 142);
}

#[test]
fn hierarchy_containment_over_bundled_taxonomy() {
    let taxonomy = default_taxonomy();
    let compiled = compile(&taxonomy).expect("bundled taxonomy compiles");
    let api = GenreApi::from_entries(compiled.entries);

    let mut union_count = 0;
    for c in &taxonomy {
        let subs = api.get_subgenres_of(&c.id);
        assert_eq!(subs.len(), c.subcategories.len());
        for (got, want) in subs.iter().zip(c.subcategories.iter()) {
            assert_eq!(got.id, want.id);
            assert_eq!(got.parent_id, Some(c.id.clone()));
            assert!(matches!(got.genre_type, GenreType::Subgenre));
        }
        union_count += subs.len();
    }
    let total_subgenres = api
        .get_all_genres()
        .iter()
        .filter(|e| matches!(e.genre_type, GenreType::Subgenre))
        .count();
    assert_eq!(union_count, total_subgenres);
}

#[test]
fn top_level_listing_preserves_order() {
    let compiled = compile(&default_taxonomy()).expect("bundled taxonomy compiles");
    let api = GenreApi::from_entries(compiled.entries);
    let genres = api.get_genres();
    assert_eq!(genres.len(), 20);
    assert_eq!(genres[0].id, "rock");
    assert_eq!(genres[19].id, "new_age");
    for g in &genres {
        assert!(matches!(g.genre_type, GenreType::Genre));
        assert_eq!(g.parent_id, None);
    }
}

#[test]
fn hierarchical_view_reproduces_structure() {
    let taxonomy = default_taxonomy();
    let compiled = compile(&taxonomy).expect("bundled taxonomy compiles");
    let api = GenreApi::from_entries(compiled.entries);
    let view = api.get_hierarchical_genres();
    assert_eq!(view.len(), 20);
    assert_eq!(view[0].id, "rock");
    assert_eq!(view[0].name, "Rock");
    assert_eq!(view[0].genre_id.ordinal, 0);
    assert_eq!(view[0].subgenres.len(), 10);
    assert_eq!(view[0].subgenres[0].id, "hard_rock");
    for (h, c) in view.iter().zip(taxonomy.iter()) {
        assert_eq!(h.id, c.id);
        assert_eq!(h.subgenres.len(), c.subcategories.len());
    }
}

#[test]
fn genre_name_lookup() {
    let compiled = compile(&default_taxonomy()).expect("bundled taxonomy compiles");
    let api = GenreApi::from_entries(compiled.entries);
    assert_eq!(api.get_genre_name("hard_rock"), Some("Hard Rock".to_string()));
    assert_eq!(api.get_genre_name("hip_hop"), Some("Hip Hop / Rap".to_string()));
    assert_eq!(api.get_genre_name("unknown"), None);
}

#[test]
fn genre_id_to_string_is_the_symbolic_name() {
    let compiled = compile(&default_taxonomy()).expect("bundled taxonomy compiles");
    let api = GenreApi::from_entries(compiled.entries);
    let idm = api.get_genre_by_id("idm").expect("idm is a valid id");
    assert_eq!(api.genre_id_to_string(idm.genre_id), Some("Idm".to_string()));
    let out_of_range = GenreId::from_ordinal(100_000);
    assert_eq!(api.genre_id_to_string(out_of_range), None);
}

#[test]
fn explicit_subcategory_name_is_kept() {
    let taxonomy = vec![cat(
        "pop",
        "Pop",
        vec![Subcategory::with_name("k_pop".to_string(), "K-Pop".to_string())],
    )];
    let compiled = compile(&taxonomy).expect("no collision in this taxonomy");
    let api = GenreApi::from_entries(compiled.entries);
    assert_eq!(api.get_genre_name("k_pop"), Some("K-Pop".to_string()));
}

#[test]
fn empty_api_answers_negatively() {
    let api = GenreApi::new();
    assert!(api.get_all_genres().is_empty());
    assert!(api.get_genres().is_empty());
    assert!(api.get_subgenres_of("rock").is_empty());
    assert!(api.get_genre_by_id("rock").is_none());
    assert!(!api.is_valid_genre_id("rock"));
    assert!(api.get_hierarchical_genres().is_empty());
}

#[test]
fn from_taxonomy_builds_the_snapshot() {
    let api = GenreApi::from_taxonomy(&default_taxonomy()).expect("bundled taxonomy compiles");
    assert_eq!(api.get_all_genres().len(), 142);
    let api_err = GenreApi::from_taxonomy(&vec![
        cat("rock", "Rock", vec![]),
        cat("rock", "Rock Again", vec![]),
    ]);
    let err = api_err.expect_err("duplicate ids collide");
    assert_eq!(err.first_id, "rock");
    assert_eq!(err.second_id, "rock");
}

#[test]
fn entry_getters_expose_all_fields() {
    let taxonomy = vec![cat("rock", "Rock", vec![sub("hard_rock")])];
    let api = GenreApi::from_taxonomy(&taxonomy).expect("no collision in this taxonomy");
    let e = api.get_genre_by_id("rock").expect("rock is a valid id");
    assert_eq!(e.id(), "rock");
    assert_eq!(e.name(), "Rock");
    assert!(matches!(e.genre_type(), GenreType::Genre));
    assert_eq!(e.parent_id(), None);
    assert_eq!(e.genre_id().ordinal(), 0);
    assert_eq!(e.to_native_type(), e.genre_id());
}

#[test]
fn rendered_definition_groups_by_category() {
    let taxonomy = vec![cat("rock", "Rock", vec![sub("hard_rock")]), cat("pop", "Pop", vec![])];
    let compiled = compile(&taxonomy).expect("no collision in this taxonomy");
    let text = music_genres::emit::render_definition(&compiled.members);
    assert_eq!(
        text,
        "pub enum GenreId {\n    // ===== Rock =====\n    Rock,\n    HardRock,\n\n    // ===== Pop =====\n    Pop,\n}\n"
    );
}

#[test]
fn header_splice_is_verbatim_and_optional() {
    let notice = "// notice\n".to_string();
    assert_eq!(
        music_genres::emit::prepend_header(Some(&notice), "body".to_string()),
        "// notice\nbody"
    );
    assert_eq!(music_genres::emit::prepend_header(None, "body".to_string()), "body");
}

#[test]
fn identifier_encoding_round_trips() {
    let g = GenreId::from_ordinal(141);
    let byte = g.encode();
    assert_eq!(GenreId::decode(byte), g);
    assert_eq!(byte, 141u8);
    assert_eq!(std::mem::size_of_val(&byte), music_genres::ident::ENCODED_LEN);
    assert!(GenreId::from_ordinal(0).le(g));
    assert!(!g.le(GenreId::from_ordinal(0)));
}
