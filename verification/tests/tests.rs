use ed25519_dalek::{PublicKey, Signature, Verifier};
use ed25519_speccheck::test_vectors::{generate_test_vectors, TestVector};
use ed25519_speccheck::{
    algorithm2, compute_hram, deserialize_point, new_rng, serialize_signature, verify_cofactored,
    verify_cofactorless, Point, Scalar, EIGHT_TORSION,
};
use ed25519_zebra::{Signature as ZSignature, VerificationKey as ZPublicKey};
use rand::RngCore;
use ring::signature;
use std::convert::TryFrom;

fn hex(bytes: &[u8]) -> String {
    let mut out = String::new();
    for b in bytes {
        out.push_str(&format!("{:02x}", b));
    }
    out
}

fn unpack_test_vector_dalek(t: &TestVector) -> (PublicKey, Signature) {
    let pk = PublicKey::from_bytes(&t.pub_key[..]).unwrap();
    let sig = Signature::try_from(&t.signature[..]).unwrap();
    (pk, sig)
}

fn unpack_test_vector_hacl(
    t: &TestVector,
) -> (hacl_star::ed25519::PublicKey, hacl_star::ed25519::Signature) {
    let mut sig_bytes = [0u8; 64];
    sig_bytes.copy_from_slice(&t.signature[..]);

    let pk = hacl_star::ed25519::PublicKey(t.pub_key);
    let sig = hacl_star::ed25519::Signature(sig_bytes);
    (pk, sig)
}

fn unpack_test_vector_zebra(t: &TestVector) -> (ZPublicKey, ZSignature) {
    let pk = ZPublicKey::try_from(&t.pub_key[..]).unwrap();
    let sig = ZSignature::try_from(&t.signature[..]).unwrap();
    (pk, sig)
}

fn ring_verify(t: &TestVector) -> Result<(), String> {
    let pk = untrusted::Input::from(&t.pub_key[..]);
    let sig = untrusted::Input::from(&t.signature[..]);
    let msg = untrusted::Input::from(&t.message[..]);
    <signature::EdDSAParameters as signature::VerificationAlgorithm>::verify(
        &signature::ED25519,
        pk,
        msg,
        sig,
    )
    .map_err(|_| String::from("signature verification failed"))
}

#[test]
#[allow(non_snake_case)]
fn test_CGN20_algorithm2() {
    let vec = generate_test_vectors().unwrap();

    let mut row = String::from("\n|[CGN20e] Alg.2 |");
    for tv in vec.iter() {
        let pk = match algorithm2::deserialize_pk(&tv.pub_key) {
            Ok(pk) => pk,
            Err(_) => {
                row.push_str(" X |");
                continue;
            }
        };

        let (s, R) = match algorithm2::deserialize_signature(&tv.signature) {
            Ok(sR) => sR,
            Err(_) => {
                row.push_str(" X |");
                continue;
            }
        };

        if algorithm2::verify_signature(&s, &R, &tv.message, &pk) {
            row.push_str(" V |");
        } else {
            row.push_str(" X |");
        }
    }
    println!("{}", row);
}

#[test]
fn test_hacl() {
    let vec = generate_test_vectors().unwrap();

    let mut row = String::from("\n|Hacl*          |");
    for tv in vec.iter() {
        let (pk, sig) = unpack_test_vector_hacl(tv);
        if pk.verify(&tv.message[..], &sig) {
            row.push_str(" V |");
        } else {
            row.push_str(" X |");
        }
    }
    println!("{}", row);
}

#[test]
fn test_dalek() {
    let vec = generate_test_vectors().unwrap();

    let mut row = String::from("\n|Dalek          |");
    for tv in vec.iter() {
        match Signature::try_from(&tv.signature[..]) {
            Ok(_v) => {}
            Err(_e) => {
                row.push_str(" X |");
                continue;
            }
        }

        let (pk, sig) = unpack_test_vector_dalek(tv);
        match pk.verify(&tv.message[..], &sig) {
            Ok(_v) => row.push_str(" V |"),
            Err(_e) => row.push_str(" X |"),
        }
    }
    println!("{}", row);
}

#[test]
fn test_dalek_verify_strict() {
    let vec = generate_test_vectors().unwrap();

    let mut row = String::from("\n|Dalek strict   |");
    for tv in vec.iter() {
        match Signature::try_from(&tv.signature[..]) {
            Ok(_v) => {}
            Err(_e) => {
                row.push_str(" X |");
                continue;
            }
        }

        let (pk, sig) = unpack_test_vector_dalek(tv);
        match pk.verify_strict(&tv.message[..], &sig) {
            Ok(_v) => row.push_str(" V |"),
            Err(_e) => row.push_str(" X |"),
        }
    }
    println!("{}", row);
}

#[test]
fn test_boringssl() {
    let vec = generate_test_vectors().unwrap();

    let mut row = String::from("\n|BoringSSL      |");
    for tv in vec.iter() {
        match ring_verify(tv) {
            Ok(_v) => row.push_str(" V |"),
            Err(_e) => row.push_str(" X |"),
        }
    }
    println!("{}", row);
}

#[test]
fn test_zebra() {
    let vec = generate_test_vectors().unwrap();

    let mut row = String::from("\n|Zebra          |");
    for tv in vec.iter() {
        match Signature::try_from(&tv.signature[..]) {
            Ok(_v) => {}
            Err(_e) => {
                row.push_str(" X |");
                continue;
            }
        }

        let (pk, sig) = unpack_test_vector_zebra(tv);
        match pk.verify(&sig, &tv.message[..]) {
            Ok(_v) => row.push_str(" V |"),
            Err(_e) => row.push_str(" X |"),
        }
    }
    println!("{}", row);
}

#[test]
fn test_repudiation_dalek() {
    // Pick a random Scalar
    let mut rng = new_rng();
    let mut scalar_bytes = [0u8; 32];
    rng.fill_bytes(&mut scalar_bytes);
    let s = Scalar::from_bytes_mod_order(scalar_bytes);
    assert!(s.is_canonical());
    assert!(s != Scalar::zero());

    let r0 = Point::basepoint().mul(&s);
    // Pick a torsion point of order 2
    let pub_key = deserialize_point(&EIGHT_TORSION[4]).unwrap();
    let r = r0.add(&pub_key.neg());

    let message1 = b"Send 100 USD to Alice";
    let message2 = b"Send 100000 USD to Alice";

    assert!(pub_key.neg().add(&pub_key.mul(&compute_hram(message1, &pub_key, &r))).is_identity());
    assert!(pub_key.neg().add(&pub_key.mul(&compute_hram(message2, &pub_key, &r))).is_identity());

    assert!(verify_cofactored(message1, &pub_key, &(r, s)).is_ok());
    assert!(verify_cofactorless(message1, &pub_key, &(r, s)).is_ok());
    assert!(verify_cofactored(message2, &pub_key, &(r, s)).is_ok());
    assert!(verify_cofactorless(message2, &pub_key, &(r, s)).is_ok());

    println!(
        "Small pk breaks non-repudiation:\n\
         \"pub_key\": \"{}\",\n\
         \"signature\": \"{}\",\n\
         \"message1\": \"{}\",\n\
         \"message2\": \"{}\"",
        hex(&pub_key.compress()),
        hex(&serialize_signature(&r, &s)),
        hex(message1),
        hex(message2),
    );

    let signature = serialize_signature(&r, &s);
    let pk = PublicKey::from_bytes(&pub_key.compress()[..]).unwrap();
    let sig = Signature::try_from(&signature[..]).unwrap();
    assert!(pk.verify(message1, &sig).is_ok());
    assert!(pk.verify(message2, &sig).is_ok());
}
