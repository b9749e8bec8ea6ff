use aes::cipher::block_padding::Pkcs7;
use aes::cipher::{BlockEncrypt, BlockEncryptMut, KeyInit, KeyIvInit};
use hmac::Mac;
use sha2::Digest;
use tuta_poll::crypto::{
    aes_decrypt, create_user_passphrase_key, decrypt_key, decrypt_rsa_key, parse_key_params,
    rsa_decrypt, split_key_fields, u8_to_key, SubKeys,
};
use tuta_poll::types::DecryptError;

const N: &str = "da02b01487d8877523b12b729d013214fe2fe8528dc3487bdbc0a3888ec831a6967f3f8982b074a8f71a59d42bfb19a7c3e1dd1e34336420b56655ea5b180001d4ffe645b149275fda9dcccd913c42487520f00d3ebf11794825776f039096c57d42c01f85565d61f8ba905a7c24e3f03b16236d49acd3edbc604279e8a07f6f0421dc0e42a6c2cb977e77de062411084adfc926b76a8a88a5883c1a70429909453a7f3a595857467d0f0470289cdd2ee2f4c6d5d033fc366c9bdfd70669eada824a079e42b9bfce501cbcfe6cc122ce478f844b25fa34bdb47f342241af396adc8c5193ab6c85a7256b99e0bf18f1db01eff49b6494da65cdcbd5f4132fe0b7";
const E: &str = "010001";
const D: &str = "11ed38a7678841933b4d1d427e7093bab030264d6b84cc580af8eb39966c15d119fcfaaf870495833356825e75035fd7b0bec8dcebf3f1ded2abc892cdccca6b5c2572bcf6580a99d233399d09bd47c207879ed5a7fc3426a1ed1ac61127f98de1bff466632377e84f789fd820ef33a31468bc9f06f8e4305f5617014944b155bbb321cb6b9e0dbe0a34beead114fb45522f4f812b2c78a6a76deb8e3849ebf3379455fb60ecc2836c5d0de9d245ce7968f7ad872c8a448adef3fe1f067668ef9c46699875533db17fe2c68df7c4d5572587c62a05aad7811450ce082c94900d86482aa97433e883ebca3bbc7786e5b91327cdcd30a02aef4ba91df1d1c48031";
const P: &str = "dcbcb131d87f0f7c8d824f567ee87234825be5d17bf3c044a7cb8fac6561ed8a68499f17da27a8628367f9add595f72a0fc660edd9745360b37cb6a53719afbc5f8ac2dba273f100a3e180e4f2cbd149e4d7bdc1b2254a0f801e3739e293bdbe8df43581183c68b92a5e6db78fde7f1e0ebdbfefe4f20abe101c3605940a2a89";
const Q: &str = "fcd67d28d44dec98267f681032a335d424436461075250b24ac2f1dfd287ebb6f0b95104ab2c264283ad4ca73cf486c33f88ba3ba9b931ece1b25f71885e76978bdf6f60ad1cf40f1b23fbfb274350a9bae3af145cd89d284c843831a430e09d846e5b2d16b5b5489aa87c750941530ddaf98909a1adf2b0f9daaea933a5e13f";
const DP: &str = "a445388923d8cb29a2160bfd0ecce5d0f60275f184114e50c99ecff93829bca17822f1e6ca4f211ccf361db5a471ca52df127f2802e072fc5016cbc6004f795cf2ad4d7e2e53a2531ba2c24d9ff2d679eb78329b677c20b5905eec3283cff7314c6b253641571388596394bb3ab2165fc410aa3a596357634291fc1202adde21";
const DQ: &str = "9d44d9935503a78038aa1553c5fba956ecbb92ab9bff42bcb42e307f75982031a9e8cb9168dbcc6ca13561b1c103a4f3bc0853371b6a5bb8a9e6e6e15adecf4b92b087ba0dd42da75bcd754692f4972f0c55e5a877dc315d48c311a5272953fe06cb1221a8b79c2cae2ed143875f3fc72587040b9eaaf183cdd68dc027a52dc7";
const QINV: &str = "79e389e51a1ebfcbb5388f31d8a3051f5f3d1523e5697b1fe3fa5862d40c04a53fd542a8e1fc1011b671efb6d7b99b7bb5c132409180336971b657422a1c2a3748cc7afd1260a27f00663fb76347ef60c1554321893ac507d93960b77383fae69587d68b10b3e64d4897eec100994ea40177f0c47122974f98b15a8372bad415";
const CT: &str = "8e525496c0cf2ee89c0581868d8ab70bb130306d192b5c461f21e0a7eda0a212abf84b517f6af00eb608b7ba651e55c168bbf15589f4a04442750326d479426438a56413aec17db1a2a800f801278955870d9615e238846f74b2f1a055f1a33a6e1ec009c8e91b572c3d51dfdf389a49df4b4a405f0a5aa6340afd0c3cacf6c13dc1bbae66141f8bd6570083b658f5acf0f60adaea42a3b34e645cc84ed9184d2ed769e72d0eb0da86d7bcd4db9da22f28ff02207cdb42e01eb9bc3350d98d1c1ebf9d2cfd1cdcc23b8e0e8dd5bcf63b37724702a229a8bf5565cba42f8769bf5f02ea5499526e74d010cb0d3e7f71b9bc718e30b9b7a8c319a4df3885aaf757";
const CT20: &str = "cf2e13b391e80fcdfca8c6c1e44b35a599c01a97718d72288cf91c39ad60e103fdde88071d81b67a7978059922deb9e28cdfbdcf104ff0c34b27b9130deeab12c898a9d041a359b6335953280635ca401de417c29f73aa6becb0277b4bbb49cec224127559a333d803e697300ae53f75ba53980bce5d93035f61bbeb3d81e305ae80169e065415a4d8a8be5200a5f997227fba98721f38e8d35fe6f785ada7acc9f59d650aef42909f82f177e1fb372382b61c44032da426ec792a6c251239e1a227dbddc46afa3c19a2cc1cbbeb4314ded34d6a426123facd30ec5c8484366f2e2d6394c3ac922c5784cf4c1217d8eaf2518a0b63e59c958dd72c9d287cf6b1";
const NSMALL: &str = "32e1fd4634d8479ea8caf98fa4441ad909b7b8c208887d8d5b31511578b3dab90e3dfbbfc9fde52abbe640f8ceec5983a67dc0729713b0b121a147339cf8953dbdc9c6635490e094db4593c92b5a236ca4146700bf36be4244361bf83363d289d80e6216e8976d110ef91e2a202b0166cc95e92afe3cf66b5490da9c2757b9b63fca5c57043fe8dac1cba285c1e134024336a980c14f48d6e7c50f6205483895bc0f170be8a1206cab5de1a06c76083b6b62129d69ac7b84bb6e559137b66a5ef618a752c471bb796d18100d91812525e15d2aff47f6682a276198447d29ae1c00e98867729003a0ce79b0d174fe58ccaa031407d5ad9d608428bb38403f358b";

fn hex(s: &str) -> Vec<u8> {
    (0..s.len())
        .step_by(2)
        .map(|i| u8::from_str_radix(&s[i..i + 2], 16).unwrap())
        .collect()
}

fn key16(s: &str) -> [u8; 16] {
    hex(s).try_into().unwrap()
}

fn cbc_encrypt(key: &[u8; 16], iv: &[u8; 16], plain: &[u8]) -> Vec<u8> {
    cbc::Encryptor::<aes::Aes128>::new(key.into(), iv.into()).encrypt_padded_vec_mut::<Pkcs7>(plain)
}

fn encrypt_legacy(key: &[u8; 16], iv: &[u8; 16], plain: &[u8]) -> Vec<u8> {
    let mut out = iv.to_vec();
    out.extend(cbc_encrypt(key, iv, plain));
    out
}

fn encrypt_authenticated(key: &[u8; 16], iv: &[u8; 16], plain: &[u8]) -> Vec<u8> {
    let digest = sha2::Sha256::digest(key);
    let cipher_key: [u8; 16] = digest[..16].try_into().unwrap();
    let region = encrypt_legacy(&cipher_key, iv, plain);
    let mut mac = <hmac::Hmac<sha2::Sha256> as Mac>::new_from_slice(&digest[16..]).unwrap();
    mac.update(&region);
    let tag = mac.finalize().into_bytes();
    let mut out = vec![1u8];
    out.extend(region);
    out.extend(tag.iter());
    out
}

fn wrap_key(key: &[u8; 16], plain: &[u8; 16]) -> [u8; 16] {
    let mut block = aes::Block::from(plain.map(|b| b ^ 0x88));
    aes::Aes128::new(key.into()).encrypt_block(&mut block);
    block.into()
}

fn key_material(fields: &[Vec<u8>]) -> Vec<u8> {
    let mut out = Vec::new();
    for f in fields {
        out.extend(((f.len() * 2) as u16).to_be_bytes());
        out.extend(f);
    }
    out
}

fn seven_fields(modulus: &str) -> Vec<Vec<u8>> {
    vec![hex(modulus), hex(E), hex(D), hex(P), hex(Q), hex(DP), hex(DQ)]
}

const IV: [u8; 16] = [7u8; 16];

#[test]
fn unwrap_reproduces_fixture_vector() {
    // FIPS-197 AES-128 example: decrypting the ciphertext yields
    // 00112233..ff, and every byte is then masked with 0x88.
    let key = key16("000102030405060708090a0b0c0d0e0f");
    let wrapped = key16("69c4e0d86a7b0430d8cdb78070b4c55a");
    let expected = key16("8899aabbccddeeff0011223344556677");
    assert_eq!(decrypt_key(&key, &wrapped), expected);
}

#[test]
fn unwrap_inverts_wrapping() {
    let key = [0x42u8; 16];
    let plain = key16("0f1e2d3c4b5a69788796a5b4c3d2e1f0");
    assert_eq!(decrypt_key(&key, &wrap_key(&key, &plain)), plain);
    assert_ne!(decrypt_key(&key, &wrap_key(&key, &plain)), wrap_key(&key, &plain));
}

#[test]
fn sub_keys_split_the_digest() {
    let key = [3u8; 16];
    let digest = sha2::Sha256::digest(key);
    let with_mac = SubKeys::new(key, true);
    assert_eq!(with_mac.cipher[..], digest[..16]);
    assert_eq!(with_mac.mac.unwrap()[..], digest[16..]);
    let without = SubKeys::new(key, false);
    assert_eq!(without.cipher, key);
    assert!(without.mac.is_none());
}

#[test]
fn passphrase_key_is_bcrypt_of_digest() {
    let salt = [9u8; 16];
    let digest = sha2::Sha256::digest("correct horse");
    let raw = bcrypt::bcrypt(8, salt, &digest);
    let key = create_user_passphrase_key("correct horse", &salt);
    assert_eq!(key[..], raw[..16]);
    assert_ne!(key, create_user_passphrase_key("correct horsf", &salt));
}

#[test]
fn authenticated_round_trip() {
    let key = [0x11u8; 16];
    let plain = b"subject line with some length".to_vec();
    let message = encrypt_authenticated(&key, &IV, &plain);
    assert_eq!(message.len() % 2, 1);
    assert_eq!(aes_decrypt(&key, &message), Ok(plain));
}

#[test]
fn flipped_tag_bit_is_rejected() {
    let key = [0x21u8; 16];
    let message = encrypt_authenticated(&key, &IV, b"tagged");
    let n = message.len();
    for i in n - 32..n {
        for bit in 0..8 {
            let mut altered = message.clone();
            altered[i] ^= 1 << bit;
            assert_eq!(aes_decrypt(&key, &altered), Err(DecryptError::AuthenticationFailed));
        }
    }
}

#[test]
fn flipped_protected_bit_is_rejected() {
    let key = [0x31u8; 16];
    let message = encrypt_authenticated(&key, &IV, b"protected region bytes");
    let n = message.len();
    for i in 1..n - 32 {
        for bit in 0..8 {
            let mut altered = message.clone();
            altered[i] ^= 1 << bit;
            assert_eq!(aes_decrypt(&key, &altered), Err(DecryptError::AuthenticationFailed));
        }
    }
}

#[test]
fn wrong_key_is_authentication_failure_not_legacy() {
    let message = encrypt_authenticated(&[1u8; 16], &IV, b"never legacy");
    assert_eq!(aes_decrypt(&[2u8; 16], &message), Err(DecryptError::AuthenticationFailed));
}

#[test]
fn legacy_known_vector_round_trip() {
    // Legacy format, no MAC, so no integrity check. NIST SP 800-38A F.2.1:
    // the first CBC block of this plaintext is 7649abac8119b246cee98e9b12e9197d.
    let key = key16("2b7e151628aed2a6abf7158809cf4f3c");
    let iv = key16("000102030405060708090a0b0c0d0e0f");
    let plain = hex("6bc1bee22e409f96e93d7e117393172a");
    let message = encrypt_legacy(&key, &iv, &plain);
    assert_eq!(message[16..32], hex("7649abac8119b246cee98e9b12e9197d")[..]);
    assert_eq!(message.len(), 48);
    assert_eq!(aes_decrypt(&key, &message), Ok(plain));
}

#[test]
fn legacy_is_not_integrity_checked() {
    let key = [0x51u8; 16];
    let plain = b"legacy text of two blocks......".to_vec();
    let mut message = encrypt_legacy(&key, &IV, &plain);
    message[0] ^= 0x01;
    let out = aes_decrypt(&key, &message).unwrap();
    assert_ne!(out, plain);
    assert_eq!(out[0], plain[0] ^ 0x01);
    assert_eq!(out[1..], plain[1..]);
}

#[test]
fn short_or_misaligned_ciphertexts_are_malformed() {
    let key = [0x61u8; 16];
    assert_eq!(aes_decrypt(&key, &[0u8; 31]), Err(DecryptError::MalformedCiphertext));
    assert_eq!(aes_decrypt(&key, &[0u8; 10]), Err(DecryptError::MalformedCiphertext));
    assert_eq!(aes_decrypt(&key, &[]), Err(DecryptError::MalformedCiphertext));
    assert_eq!(aes_decrypt(&key, &[0u8; 26]), Err(DecryptError::MalformedCiphertext));
}

#[test]
fn bad_padding_is_malformed() {
    let key = [0x71u8; 16];
    let mut message = encrypt_legacy(&key, &IV, b"0123456789abcdef");
    // The last block holds only padding; corrupting it breaks the padding.
    let n = message.len();
    message[n - 1] ^= 0xff;
    assert_eq!(aes_decrypt(&key, &message), Err(DecryptError::MalformedCiphertext));
}

#[test]
fn key_fields_use_hex_digit_lengths() {
    let data = vec![0x00, 0x04, 0xaa, 0xbb, 0x00, 0x02, 0xcc];
    assert_eq!(split_key_fields(&data), Some(vec![vec![0xaa, 0xbb], vec![0xcc]]));
    assert_eq!(split_key_fields(&[0x00, 0x06, 0x01]), None);
    assert_eq!(split_key_fields(&[0x00]), None);
    assert_eq!(split_key_fields(&[]), Some(vec![]));
}

#[test]
fn accepts_seven_fields_with_2048_bit_modulus() {
    let data = key_material(&seven_fields(N));
    assert_eq!(parse_key_params(&data), Ok(seven_fields(N)));
    assert!(u8_to_key(&data).is_ok());
}

#[test]
fn rejects_field_counts_other_than_seven() {
    let mut fields = seven_fields(N);
    fields.pop();
    assert_eq!(parse_key_params(&key_material(&fields)), Err(DecryptError::MalformedKeyMaterial));
    let mut eight = seven_fields(N);
    eight.push(vec![1]);
    assert_eq!(parse_key_params(&key_material(&eight)), Err(DecryptError::MalformedKeyMaterial));
    let one = vec![hex(N)];
    assert_eq!(parse_key_params(&key_material(&one)), Err(DecryptError::MalformedKeyMaterial));
    assert!(matches!(u8_to_key(&key_material(&one)), Err(DecryptError::MalformedKeyMaterial)));
}

#[test]
fn rejects_modulus_outside_2047_and_2048_bits() {
    let data = key_material(&seven_fields(NSMALL));
    assert_eq!(parse_key_params(&data), Err(DecryptError::MalformedKeyMaterial));
    let mut long = hex(N);
    long.insert(0, 1);
    let mut fields = seven_fields(N);
    fields[0] = long;
    assert_eq!(parse_key_params(&key_material(&fields)), Err(DecryptError::MalformedKeyMaterial));
    let mut half = hex(N);
    half[0] >>= 1;
    let mut fields = seven_fields(N);
    fields[0] = half.clone();
    assert_eq!(parse_key_params(&key_material(&fields)), Ok(fields));
}

#[test]
fn rejects_truncated_material() {
    let mut data = key_material(&seven_fields(N));
    data.pop();
    assert_eq!(parse_key_params(&data), Err(DecryptError::MalformedKeyMaterial));
}

#[test]
fn rsa_known_vector_decrypts() {
    let group_key = [0x5au8; 16];
    let blob = encrypt_authenticated(&group_key, &IV, &key_material(&seven_fields(N)));
    let private_key = decrypt_rsa_key(&group_key, &blob).unwrap();
    let plain = rsa_decrypt(&private_key, &hex(CT)).unwrap();
    assert_eq!(plain, (0xa0u8..0xb0).collect::<Vec<u8>>());
    assert_eq!(rsa_decrypt(&private_key, &hex(CT20)).unwrap(), (0u8..20).collect::<Vec<u8>>());
}

#[test]
fn rsa_rejects_bad_ciphertext() {
    let private_key = u8_to_key(&key_material(&seven_fields(N))).unwrap();
    let mut ct = hex(CT);
    ct[100] ^= 0x10;
    assert_eq!(rsa_decrypt(&private_key, &ct), Err(DecryptError::MalformedCiphertext));
}

#[test]
fn rsa_key_blob_errors_propagate() {
    let group_key = [0x5au8; 16];
    let mut blob = encrypt_authenticated(&group_key, &IV, &key_material(&seven_fields(N)));
    let n = blob.len();
    blob[n - 1] ^= 1;
    assert!(matches!(decrypt_rsa_key(&group_key, &blob), Err(DecryptError::AuthenticationFailed)));
    let blob = encrypt_authenticated(&group_key, &IV, &key_material(&seven_fields(NSMALL)));
    assert!(matches!(decrypt_rsa_key(&group_key, &blob), Err(DecryptError::MalformedKeyMaterial)));
}

#[test]
fn key_uses_fields_zero_two_three_four() {
    // Field 1 is only a placeholder: junk there does not matter.
    let mut fields = seven_fields(N);
    fields[1] = vec![0xde, 0xad];
    let private_key = u8_to_key(&key_material(&fields)).unwrap();
    assert_eq!(rsa_decrypt(&private_key, &hex(CT)).unwrap(), (0xa0u8..0xb0).collect::<Vec<u8>>());
}

#[test]
fn parts_that_form_no_key_are_malformed() {
    let mut fields = seven_fields(N);
    fields[2] = fields[5].clone();
    assert!(matches!(u8_to_key(&key_material(&fields)), Err(DecryptError::MalformedKeyMaterial)));
    let mut fields = seven_fields(N);
    fields.swap(3, 5);
    assert!(matches!(u8_to_key(&key_material(&fields)), Err(DecryptError::MalformedKeyMaterial)));
}

#[test]
fn leading_zero_bytes_do_not_count_as_modulus_bits() {
    let mut padded = vec![0u8, 0u8];
    padded.extend(hex(N));
    let mut fields = seven_fields(N);
    fields[0] = padded;
    assert_eq!(parse_key_params(&key_material(&fields)), Ok(fields.clone()));
    let private_key = u8_to_key(&key_material(&fields)).unwrap();
    assert_eq!(rsa_decrypt(&private_key, &hex(CT)).unwrap(), (0xa0u8..0xb0).collect::<Vec<u8>>());
}
