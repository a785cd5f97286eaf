use fast3d::texture_request::serialization::serialize;
use fast3d::texture_request::{
    bytes_equal, representation_byte, DecodeRecipe, EncodedInput, EncodedTextureRequest,
    Representation, TextureKeyScheme, TextureSource, TMEM_BYTES,
};

fn tile_recipe(fmt: u8, siz: u8, w: u32, h: u32) -> DecodeRecipe {
    DecodeRecipe {
        representation: Representation::Tile,
        output: [w, h],
        logical: [w, h],
        fmt,
        siz,
        base: 0,
        line: 1,
        palette: 0,
        tlut: 0,
    }
}

fn linear_recipe(fmt: u8, siz: u8, w: u32, h: u32) -> DecodeRecipe {
    DecodeRecipe {
        representation: Representation::LinearCompat,
        ..tile_recipe(fmt, siz, w, h)
    }
}

fn bank_with(pairs: &[(usize, u8)]) -> Vec<u8> {
    let mut bank = vec![0u8; TMEM_BYTES];
    for &(i, b) in pairs {
        bank[i] = b;
    }
    bank
}

#[test]
fn requests_accept_only_fitting_inputs() {
    let bank = bank_with(&[]);
    assert!(EncodedTextureRequest::new(EncodedInput::Tmem(bank.clone()), tile_recipe(0, 2, 2, 2)).is_some());
    assert!(EncodedTextureRequest::new(EncodedInput::Tmem(vec![0; 100]), tile_recipe(0, 2, 2, 2)).is_none());
    assert!(EncodedTextureRequest::new(EncodedInput::Tmem(bank.clone()), linear_recipe(0, 2, 2, 2)).is_none());
    assert!(EncodedTextureRequest::new(EncodedInput::Tmem(bank.clone()), tile_recipe(0, 4, 2, 2)).is_none());
    // A CI8 4x4 linear input needs 16 index bytes.
    let short = EncodedInput::LinearCompat { bytes: vec![0; 15], palette_bank: bank.clone() };
    assert!(EncodedTextureRequest::new(short, linear_recipe(2, 1, 4, 4)).is_none());
    let full = EncodedInput::LinearCompat { bytes: vec![0; 16], palette_bank: bank.clone() };
    assert!(EncodedTextureRequest::new(full, linear_recipe(2, 1, 4, 4)).is_some());
    // Direct-color linear input is not length-checked.
    let rgba = EncodedInput::LinearCompat { bytes: vec![], palette_bank: bank };
    assert!(EncodedTextureRequest::new(rgba, linear_recipe(0, 2, 4, 4)).is_some());
}

#[test]
fn key_is_the_xxh3_of_the_witness_preimage() {
    let recipe = tile_recipe(0, 2, 2, 2);
    let bank = bank_with(&[(0, 0xF8), (1, 0x01), (6, 0x12)]);
    let q = EncodedTextureRequest::new(EncodedInput::Tmem(bank.clone()), recipe.clone()).unwrap();
    let mut bank_array = [0u8; TMEM_BYTES];
    bank_array.copy_from_slice(&bank);
    let witness = q.witness();
    assert_eq!(witness, serialize(&recipe, &bank_array, &[]));
    let key = q.key();
    assert_eq!(key.scheme, TextureKeyScheme::Fast3dV1);
    assert_eq!(key.xxh3_64, twox_hash::XxHash3_64::oneshot(&witness));
    assert_ne!(key.xxh3_64, 0);
}

#[test]
fn keys_follow_the_bytes_the_recipe_reads() {
    let recipe = tile_recipe(0, 2, 2, 2);
    let key = |pairs: &[(usize, u8)]| {
        EncodedTextureRequest::new(EncodedInput::Tmem(bank_with(pairs)), recipe.clone())
            .unwrap()
            .key()
    };
    // The first row of a 2x2 RGBA16 tile is bytes 0..4 of the bank.
    assert_ne!(key(&[]), key(&[(1, 7)]));
    assert_ne!(key(&[]), key(&[(2, 7)]));
    assert_ne!(key(&[(1, 7)]), key(&[(2, 7)]));
    // Bytes the tile never reads leave the key unchanged.
    assert_eq!(key(&[]), key(&[(3000, 7)]));
}

#[test]
fn matching_compares_recipes_and_inputs() {
    let bank = bank_with(&[(5, 1)]);
    let a = EncodedTextureRequest::new(EncodedInput::Tmem(bank.clone()), tile_recipe(0, 2, 2, 2)).unwrap();
    let b = EncodedTextureRequest::new(EncodedInput::Tmem(bank.clone()), tile_recipe(0, 2, 2, 2)).unwrap();
    let c = EncodedTextureRequest::new(EncodedInput::Tmem(bank.clone()), tile_recipe(0, 2, 4, 2)).unwrap();
    let d = EncodedTextureRequest::new(EncodedInput::Tmem(bank_with(&[(5, 2)])), tile_recipe(0, 2, 2, 2)).unwrap();
    assert!(a.matches(&b));
    assert!(!a.matches(&c));
    assert!(!a.matches(&d));
    assert!(a.recipe().same(b.recipe()));
    assert!(!a.recipe().same(c.recipe()));

    // Color-indexed linear inputs also compare the palette half of the bank.
    let lin = |pal: u8| {
        EncodedTextureRequest::new(
            EncodedInput::LinearCompat { bytes: vec![1; 16], palette_bank: bank_with(&[(2048, pal), (10, pal)]) },
            linear_recipe(2, 1, 4, 4),
        )
        .unwrap()
    };
    assert!(lin(3).matches(&lin(3)));
    assert!(!lin(3).matches(&lin(4)));
    // Direct-color linear inputs ignore the bank.
    let direct = |pal: u8| {
        EncodedTextureRequest::new(
            EncodedInput::LinearCompat { bytes: vec![1; 32], palette_bank: bank_with(&[(2048, pal)]) },
            linear_recipe(0, 2, 4, 4),
        )
        .unwrap()
    };
    assert!(direct(3).matches(&direct(4)));
}

#[test]
fn linear_requests_decode_with_the_legacy_decoder() {
    let q = EncodedTextureRequest::new(
        EncodedInput::LinearCompat { bytes: vec![0xF8, 0x01, 0xFF, 0xFF], palette_bank: bank_with(&[]) },
        linear_recipe(0, 2, 2, 1),
    )
    .unwrap();
    assert_eq!(q.decode().unwrap(), vec![255, 0, 0, 255, 255, 255, 255, 255]);
    let tmem = EncodedTextureRequest::new(EncodedInput::Tmem(bank_with(&[])), tile_recipe(0, 2, 2, 1)).unwrap();
    assert_eq!(tmem.decode(), None);
    assert_eq!(TextureSource::Rgba(vec![1, 2, 3, 4]).decode(), Some(vec![1, 2, 3, 4]));
    assert_eq!(TextureSource::Encoded(q).decode().unwrap().len(), 8);
}

#[test]
fn representation_bytes_and_byte_equality() {
    assert_eq!(representation_byte(Representation::Tile), 0);
    assert_eq!(representation_byte(Representation::Lookup4096x4), 1);
    assert_eq!(representation_byte(Representation::LinearCompat), 2);
    assert!(bytes_equal(&[1, 2, 3], &[1, 2, 3]));
    assert!(!bytes_equal(&[1, 2, 3], &[1, 2, 4]));
    assert!(!bytes_equal(&[1, 2], &[1, 2, 3]));
}
