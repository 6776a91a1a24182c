//! The bundled taxonomy source: the music genres and subgenres this library
//! ships with, in their canonical source order. Regenerating from this data
//! must always yield the same ordinal assignment.

use vstd::prelude::*;
use crate::taxonomy::Category;
use crate::taxonomy::Subcategory;

verus! {

/// One subcategory of the bundled taxonomy; its display name is derived from
/// the identifier.
fn subcat(id: &str) -> (r: Subcategory)
    ensures
        r.id@ == id@,
        r.name is None,
{
    Subcategory::new(String::from_str(id))
}

/// The bundled taxonomy, in canonical source order.
pub fn default_taxonomy() -> (r: Vec<Category>)
    ensures
        r@.len() == 20,
{
    let mut cats: Vec<Category> = Vec::new();

    let mut subs: Vec<Subcategory> = Vec::new();
    subs.push(subcat("hard_rock"));
    subs.push(subcat("classic_rock"));
    subs.push(subcat("punk_rock"));
    subs.push(subcat("alternative_rock"));
    subs.push(subcat("indie_rock"));
    subs.push(subcat("progressive_rock"));
    subs.push(subcat("garage_rock"));
    subs.push(subcat("post_rock"));
    subs.push(subcat("math_rock"));
    subs.push(subcat("grunge"));
    cats.push(Category::new(String::from_str("rock"), String::from_str("Rock"), subs));

    let mut subs: Vec<Subcategory> = Vec::new();
    subs.push(subcat("dance_pop"));
    subs.push(subcat("electropop"));
    subs.push(subcat("synthpop"));
    subs.push(subcat("teen_pop"));
    subs.push(subcat("k_pop"));
    subs.push(subcat("baroque_pop"));
    subs.push(subcat("art_pop"));
    cats.push(Category::new(String::from_str("pop"), String::from_str("Pop"), subs));

    let mut subs: Vec<Subcategory> = Vec::new();
    subs.push(subcat("trap"));
    subs.push(subcat("boom_bap"));
    subs.push(subcat("gangsta_rap"));
    subs.push(subcat("conscious_rap"));
    subs.push(subcat("lofi_hip_hop"));
    subs.push(subcat("drill"));
    subs.push(subcat("cloud_rap"));
    subs.push(subcat("experimental_hip_hop"));
    cats.push(Category::new(String::from_str("hip_hop"), String::from_str("Hip Hop / Rap"), subs));

    let mut subs: Vec<Subcategory> = Vec::new();
    subs.push(subcat("house"));
    subs.push(subcat("techno"));
    subs.push(subcat("trance"));
    subs.push(subcat("dubstep"));
    subs.push(subcat("drum_and_bass"));
    subs.push(subcat("electronic_ambient"));
    subs.push(subcat("idm"));
    subs.push(subcat("electro"));
    subs.push(subcat("downtempo"));
    subs.push(subcat("breakbeat"));
    subs.push(subcat("hardstyle"));
    subs.push(subcat("triphop"));
    cats.push(Category::new(String::from_str("electronic"), String::from_str("Electronic"), subs));

    let mut subs: Vec<Subcategory> = Vec::new();
    subs.push(subcat("contemporary_r_and_b"));
    subs.push(subcat("neo_soul"));
    subs.push(subcat("motown"));
    subs.push(subcat("funk"));
    subs.push(subcat("quiet_storm"));
    subs.push(subcat("blue_eyed_soul"));
    cats.push(Category::new(String::from_str("r_and_b"), String::from_str("R&B / Soul"), subs));

    let mut subs: Vec<Subcategory> = Vec::new();
    subs.push(subcat("bebop"));
    subs.push(subcat("swing"));
    subs.push(subcat("cool_jazz"));
    subs.push(subcat("fusion"));
    subs.push(subcat("acid_jazz"));
    subs.push(subcat("latin_jazz"));
    subs.push(subcat("vocal_jazz"));
    cats.push(Category::new(String::from_str("jazz"), String::from_str("Jazz"), subs));

    let mut subs: Vec<Subcategory> = Vec::new();
    subs.push(subcat("baroque"));
    subs.push(subcat("classical_period"));
    subs.push(subcat("romantic"));
    subs.push(subcat("contemporary_classical"));
    subs.push(subcat("opera"));
    subs.push(subcat("chamber_music"));
    subs.push(subcat("electroacoustic"));
    cats.push(Category::new(String::from_str("classical"), String::from_str("Classical"), subs));

    let mut subs: Vec<Subcategory> = Vec::new();
    subs.push(subcat("bluegrass"));
    subs.push(subcat("outlaw_country"));
    subs.push(subcat("alt_country"));
    subs.push(subcat("contemporary_country"));
    subs.push(subcat("country_pop"));
    subs.push(subcat("honky_tonk"));
    cats.push(Category::new(String::from_str("country"), String::from_str("Country"), subs));

    let mut subs: Vec<Subcategory> = Vec::new();
    subs.push(subcat("reggaeton"));
    subs.push(subcat("salsa"));
    subs.push(subcat("bachata"));
    subs.push(subcat("latin_rock"));
    subs.push(subcat("cumbia"));
    subs.push(subcat("merengue"));
    subs.push(subcat("tango"));
    cats.push(Category::new(String::from_str("latin"), String::from_str("Latin"), subs));

    let mut subs: Vec<Subcategory> = Vec::new();
    subs.push(subcat("roots_reggae"));
    subs.push(subcat("dancehall"));
    subs.push(subcat("dub"));
    subs.push(subcat("ska"));
    subs.push(subcat("rocksteady"));
    cats.push(Category::new(String::from_str("reggae"), String::from_str("Reggae"), subs));

    let mut subs: Vec<Subcategory> = Vec::new();
    subs.push(subcat("heavy_metal"));
    subs.push(subcat("thrash_metal"));
    subs.push(subcat("death_metal"));
    subs.push(subcat("black_metal"));
    subs.push(subcat("doom_metal"));
    subs.push(subcat("power_metal"));
    subs.push(subcat("metalcore"));
    subs.push(subcat("symphonic_metal"));
    subs.push(subcat("progressive_metal"));
    cats.push(Category::new(String::from_str("metal"), String::from_str("Metal"), subs));

    let mut subs: Vec<Subcategory> = Vec::new();
    subs.push(subcat("folk_rock"));
    subs.push(subcat("traditional_folk"));
    subs.push(subcat("indie_folk"));
    subs.push(subcat("progressive_folk"));
    cats.push(Category::new(String::from_str("folk"), String::from_str("Folk"), subs));

    let mut subs: Vec<Subcategory> = Vec::new();
    subs.push(subcat("afrobeat"));
    subs.push(subcat("highlife"));
    subs.push(subcat("brazilian"));
    subs.push(subcat("flamenco"));
    subs.push(subcat("celtic"));
    subs.push(subcat("bharatnatyam"));
    subs.push(subcat("gamelan"));
    subs.push(subcat("fado"));
    cats.push(Category::new(String::from_str("world"), String::from_str("World"), subs));

    let mut subs: Vec<Subcategory> = Vec::new();
    subs.push(subcat("film_score"));
    subs.push(subcat("video_game_music"));
    subs.push(subcat("musical_soundtrack"));
    subs.push(subcat("television_score"));
    cats.push(Category::new(String::from_str("soundtrack"), String::from_str("Soundtrack / Score"), subs));

    let mut subs: Vec<Subcategory> = Vec::new();
    subs.push(subcat("noise"));
    subs.push(subcat("musique_concrete"));
    subs.push(subcat("glitch"));
    subs.push(subcat("minimalism"));
    subs.push(subcat("electroacoustic_experimental"));
    cats.push(Category::new(String::from_str("experimental"), String::from_str("Experimental / Avant-Garde"), subs));

    let mut subs: Vec<Subcategory> = Vec::new();
    subs.push(subcat("hardcore_punk"));
    subs.push(subcat("post_punk"));
    subs.push(subcat("ska_punk"));
    subs.push(subcat("crust_punk"));
    cats.push(Category::new(String::from_str("punk"), String::from_str("Punk"), subs));

    let mut subs: Vec<Subcategory> = Vec::new();
    subs.push(subcat("gospel"));
    subs.push(subcat("contemporary_christian"));
    subs.push(subcat("christian_rock"));
    cats.push(Category::new(String::from_str("gospel_christian"), String::from_str("Gospel / Christian"), subs));

    let mut subs: Vec<Subcategory> = Vec::new();
    subs.push(subcat("delta_blues"));
    subs.push(subcat("electric_blues"));
    subs.push(subcat("urban_blues"));
    subs.push(subcat("blues_rock"));
    cats.push(Category::new(String::from_str("blues"), String::from_str("Blues"), subs));

    let mut subs: Vec<Subcategory> = Vec::new();
    subs.push(subcat("dark_ambient"));
    subs.push(subcat("space_ambient"));
    subs.push(subcat("ambient_new_age"));
    cats.push(Category::new(String::from_str("ambient"), String::from_str("Ambient"), subs));

    let mut subs: Vec<Subcategory> = Vec::new();
    subs.push(subcat("meditation"));
    subs.push(subcat("relaxation"));
    subs.push(subcat("healing"));
    cats.push(Category::new(String::from_str("new_age"), String::from_str("New Age"), subs));

    cats
}

} // verus!
