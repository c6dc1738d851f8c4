use tfhe::errors::{status_code, FheError, STATUS_SUCCESS};
use tfhe::integer::{evaluate, try_encrypt, BinaryOp};
use tfhe::keys::{
    concrete_generate_keys, concrete_public_key_new, concrete_set_server_key,
    concrete_unset_server_key, config_builder_all_disabled, config_builder_build,
    config_builder_clone, config_builder_enable_default_bool, config_builder_enable_default_uint256,
    config_builder_enable_default_uint8, ConcreteClientKey, ConcreteServerKey, Config,
    ServerKeyContext,
};
use tfhe::params::{num_bits, num_blocks, parameters_of, FheTypeId, BLOCK_MESSAGE_MODULUS};
use tfhe::typed::{
    fhe_bool_decrypt, fhe_bool_try_encrypt_with_client_key_bool,
    fhe_bool_try_encrypt_with_public_key, fhe_uint256_decrypt,
    fhe_uint256_try_encrypt_with_client_key_u256, fhe_uint256_try_encrypt_with_public_key_u256,
    fhe_uint8_decrypt, fhe_uint8_try_encrypt_with_client_key_u8,
    fhe_uint8_try_encrypt_with_public_key, FheUint16, FheUint8,
};
use tfhe::u256::{u256_from_words, U256};

const ALL_OPS: [BinaryOp; 13] = [
    BinaryOp::Add,
    BinaryOp::Sub,
    BinaryOp::Mul,
    BinaryOp::BitAnd,
    BinaryOp::BitOr,
    BinaryOp::BitXor,
    BinaryOp::Eq,
    BinaryOp::Ge,
    BinaryOp::Gt,
    BinaryOp::Le,
    BinaryOp::Lt,
    BinaryOp::Min,
    BinaryOp::Max,
];

fn plain_u8(op: BinaryOp, a: u8, b: u8) -> u8 {
    match op {
        BinaryOp::Add => a.wrapping_add(b),
        BinaryOp::Sub => a.wrapping_sub(b),
        BinaryOp::Mul => a.wrapping_mul(b),
        BinaryOp::BitAnd => a & b,
        BinaryOp::BitOr => a | b,
        BinaryOp::BitXor => a ^ b,
        BinaryOp::Eq => (a == b) as u8,
        BinaryOp::Ge => (a >= b) as u8,
        BinaryOp::Gt => (a > b) as u8,
        BinaryOp::Le => (a <= b) as u8,
        BinaryOp::Lt => (a < b) as u8,
        BinaryOp::Min => a.min(b),
        BinaryOp::Max => a.max(b),
    }
}

fn config_with(enable_bool: bool, enable_u8: bool, enable_u256: bool) -> Config {
    let mut builder = config_builder_all_disabled();
    if enable_bool {
        config_builder_enable_default_bool(&mut builder);
    }
    if enable_u8 {
        config_builder_enable_default_uint8(&mut builder);
    }
    if enable_u256 {
        config_builder_enable_default_uint256(&mut builder);
    }
    config_builder_build(builder)
}

fn keys_for(config: Config) -> (ConcreteClientKey, ServerKeyContext, ConcreteServerKey) {
    let (client_key, server_key) = concrete_generate_keys(config, 0x5eed);
    let mut context = ServerKeyContext::new();
    concrete_set_server_key(&mut context, &server_key);
    (client_key, context, server_key)
}

#[test]
fn uint8_add_wraps_at_256() {
    let (client_key, context, _) = keys_for(config_with(false, true, false));
    let a = fhe_uint8_try_encrypt_with_client_key_u8(200, &client_key).unwrap();
    let b = fhe_uint8_try_encrypt_with_client_key_u8(100, &client_key).unwrap();
    let sum = a.evaluate(BinaryOp::Add, &b, &context).unwrap();
    assert_eq!(fhe_uint8_decrypt(&sum, &client_key), Ok(44));
}

#[test]
fn uint8_round_trip_every_value() {
    let (client_key, _, _) = keys_for(config_with(false, true, false));
    let public_key = concrete_public_key_new(&client_key);
    for v in 0..=255u8 {
        let c = fhe_uint8_try_encrypt_with_client_key_u8(v, &client_key).unwrap();
        assert_eq!(fhe_uint8_decrypt(&c, &client_key), Ok(v));
        let p = fhe_uint8_try_encrypt_with_public_key(v, &public_key).unwrap();
        assert_eq!(p.decrypt(&client_key), Ok(v));
    }
}

#[test]
fn uint8_operations_match_plain_arithmetic() {
    let (client_key, context, _) = keys_for(config_with(false, true, false));
    let samples: [u8; 9] = [0, 1, 2, 3, 77, 100, 128, 200, 255];
    for &a in samples.iter() {
        for &b in samples.iter() {
            let ca = FheUint8::encrypt(a, &client_key).unwrap();
            let cb = FheUint8::encrypt(b, &client_key).unwrap();
            for &op in ALL_OPS.iter() {
                let r = ca.evaluate(op, &cb, &context).unwrap();
                assert_eq!(r.decrypt(&client_key), Ok(plain_u8(op, a, b)), "{:?} {} {}", op, a, b);
            }
        }
    }
}

#[test]
fn uint8_assigning_variants_match() {
    let (client_key, context, _) = keys_for(config_with(false, true, false));
    for &op in ALL_OPS.iter() {
        let a = FheUint8::encrypt(173, &client_key).unwrap();
        let b = FheUint8::encrypt(58, &client_key).unwrap();
        let expected = a.evaluate(op, &b, &context).unwrap().decrypt(&client_key);
        let mut lhs = FheUint8::encrypt(173, &client_key).unwrap();
        assert_eq!(lhs.evaluate_assign(op, &b, &context), Ok(()));
        assert_eq!(lhs.decrypt(&client_key), expected);
    }
}

#[test]
fn operation_without_server_key_is_missing_context() {
    let (client_key, _) = concrete_generate_keys(config_with(false, true, false), 7);
    let context = ServerKeyContext::new();
    let a = FheUint8::encrypt(1, &client_key).unwrap();
    let b = FheUint8::encrypt(2, &client_key).unwrap();
    assert!(matches!(a.evaluate(BinaryOp::Add, &b, &context), Err(FheError::MissingContext)));
    let mut c = FheUint8::encrypt(5, &client_key).unwrap();
    assert_eq!(c.evaluate_assign(BinaryOp::Mul, &b, &context), Err(FheError::MissingContext));
    assert_eq!(c.decrypt(&client_key), Ok(5));
}

#[test]
fn server_key_without_the_type_is_unsupported() {
    let (client_key, _) = concrete_generate_keys(config_with(false, true, false), 7);
    let (_, bool_only_server_key) = concrete_generate_keys(config_with(true, false, false), 7);
    let mut context = ServerKeyContext::new();
    concrete_set_server_key(&mut context, &bool_only_server_key);
    let a = FheUint8::encrypt(1, &client_key).unwrap();
    let b = FheUint8::encrypt(2, &client_key).unwrap();
    assert!(matches!(
        a.evaluate(BinaryOp::Add, &b, &context),
        Err(FheError::UnsupportedType(FheTypeId::Uint8))
    ));
}

#[test]
fn encrypting_a_disabled_type_is_unsupported() {
    let (client_key, _) = concrete_generate_keys(config_with(true, false, false), 3);
    assert!(matches!(
        fhe_uint8_try_encrypt_with_client_key_u8(9, &client_key),
        Err(FheError::UnsupportedType(FheTypeId::Uint8))
    ));
    let (u8_key, _) = concrete_generate_keys(config_with(false, true, false), 3);
    let c = FheUint8::encrypt(9, &u8_key).unwrap();
    assert_eq!(c.decrypt(&client_key), Err(FheError::UnsupportedType(FheTypeId::Uint8)));
}

#[test]
fn plaintext_out_of_range_is_invalid_argument() {
    let config = config_with(false, true, false);
    assert!(matches!(try_encrypt(256, FheTypeId::Uint8, &config), Err(FheError::InvalidArgument)));
    assert!(try_encrypt(255, FheTypeId::Uint8, &config).is_ok());
}

#[test]
fn set_then_unset_returns_the_installed_key() {
    let config = config_with(false, true, false);
    let (client_key, server_key) = concrete_generate_keys(config, 11);
    let mut context = ServerKeyContext::new();
    assert!(matches!(concrete_unset_server_key(&mut context), Err(FheError::MissingContext)));
    concrete_set_server_key(&mut context, &server_key);
    let back = concrete_unset_server_key(&mut context).unwrap();
    assert_eq!(back.secret_id, server_key.secret_id);
    assert_eq!(back.config, server_key.config);
    assert!(context.current.is_none());
    let mut again = ServerKeyContext::new();
    concrete_set_server_key(&mut again, &back);
    let a = FheUint8::encrypt(90, &client_key).unwrap();
    let b = FheUint8::encrypt(9, &client_key).unwrap();
    let r = a.evaluate(BinaryOp::Sub, &b, &again).unwrap();
    assert_eq!(r.decrypt(&client_key), Ok(81));
}

#[test]
fn bool_operations() {
    let (client_key, context, _) = keys_for(config_with(true, false, false));
    let public_key = concrete_public_key_new(&client_key);
    for &a in [false, true].iter() {
        for &b in [false, true].iter() {
            let ca = fhe_bool_try_encrypt_with_client_key_bool(a, &client_key).unwrap();
            let cb = fhe_bool_try_encrypt_with_public_key(b, &public_key).unwrap();
            let and = ca.evaluate(BinaryOp::BitAnd, &cb, &context).unwrap();
            let or = ca.evaluate(BinaryOp::BitOr, &cb, &context).unwrap();
            let xor = ca.evaluate(BinaryOp::BitXor, &cb, &context).unwrap();
            assert_eq!(fhe_bool_decrypt(&and, &client_key), Ok(a & b));
            assert_eq!(fhe_bool_decrypt(&or, &client_key), Ok(a | b));
            assert_eq!(fhe_bool_decrypt(&xor, &client_key), Ok(a ^ b));
        }
    }
}

#[test]
fn uint16_encrypt_decrypt_and_multiply() {
    let mut builder = config_builder_all_disabled();
    builder.enable_default(FheTypeId::Uint16);
    let (client_key, context, _) = keys_for(config_builder_build(builder));
    let a = FheUint16::encrypt(65535, &client_key).unwrap();
    assert_eq!(a.decrypt(&client_key), Ok(65535));
    let b = FheUint16::encrypt(300, &client_key).unwrap();
    let c = FheUint16::encrypt(700, &client_key).unwrap();
    let p = b.evaluate(BinaryOp::Mul, &c, &context).unwrap();
    assert_eq!(p.decrypt(&client_key), Ok(300u16.wrapping_mul(700)));
    let d = b.evaluate(BinaryOp::Sub, &c, &context).unwrap();
    assert_eq!(d.decrypt(&client_key), Ok(300u16.wrapping_sub(700)));
}

#[test]
fn uint256_round_trip_and_carry_across_halves() {
    let (client_key, context, _) = keys_for(config_with(false, false, true));
    let public_key = concrete_public_key_new(&client_key);
    let a = U256 { low: u128::MAX, high: 5 };
    let b = u256_from_words(&[1, 0, 0, 0]);
    let ca = fhe_uint256_try_encrypt_with_client_key_u256(&a, &client_key).unwrap();
    let cb = fhe_uint256_try_encrypt_with_public_key_u256(&b, &public_key).unwrap();
    assert_eq!(fhe_uint256_decrypt(&ca, &client_key), Ok(a));
    let sum = ca.evaluate(BinaryOp::Add, &cb, &context).unwrap();
    assert_eq!(fhe_uint256_decrypt(&sum, &client_key), Ok(U256 { low: 0, high: 6 }));
    let max = U256 { low: u128::MAX, high: u128::MAX };
    let cmax = fhe_uint256_try_encrypt_with_client_key_u256(&max, &client_key).unwrap();
    let wrapped = cmax.evaluate(BinaryOp::Add, &cb, &context).unwrap();
    assert_eq!(fhe_uint256_decrypt(&wrapped, &client_key), Ok(U256 { low: 0, high: 0 }));
    let lt = cb.evaluate(BinaryOp::Lt, &cmax, &context).unwrap();
    assert_eq!(fhe_uint256_decrypt(&lt, &client_key), Ok(U256 { low: 1, high: 0 }));
    let mut m = fhe_uint256_try_encrypt_with_client_key_u256(&a, &client_key).unwrap();
    assert_eq!(m.evaluate_assign(BinaryOp::Max, &cmax, &context), Ok(()));
    assert_eq!(fhe_uint256_decrypt(&m, &client_key), Ok(max));
}

#[test]
fn builder_clone_and_build() {
    let mut builder = config_builder_all_disabled();
    config_builder_enable_default_uint8(&mut builder);
    let copy = config_builder_clone(&builder);
    config_builder_enable_default_bool(&mut builder);
    let built = config_builder_build(copy);
    assert!(built.enabled.is_enabled(FheTypeId::Uint8));
    assert!(!built.enabled.is_enabled(FheTypeId::Bool));
    assert!(builder.is_enabled(FheTypeId::Bool));
    assert!(!builder.is_enabled(FheTypeId::Uint256));
}

#[test]
fn registry_layouts() {
    assert_eq!(num_blocks(FheTypeId::Uint8), 4);
    assert_eq!(num_blocks(FheTypeId::Uint10), 5);
    assert_eq!(num_blocks(FheTypeId::Uint12), 6);
    assert_eq!(num_blocks(FheTypeId::Uint14), 7);
    assert_eq!(num_blocks(FheTypeId::Uint16), 8);
    assert_eq!(num_blocks(FheTypeId::Uint256), 128);
    assert_eq!(num_bits(FheTypeId::Uint256), 256);
    let p = parameters_of(FheTypeId::Uint12);
    assert_eq!(p.num_block, 6);
    assert_eq!(p.block_parameters.message_modulus, BLOCK_MESSAGE_MODULUS);
    assert!(p.wopbs_block_parameters.without_padding);
}

#[test]
fn wopbs_key_requires_matching_keys() {
    let config = config_with(false, true, false);
    let (client_key, server_key) = concrete_generate_keys(config, 1);
    let (other_client, _) = concrete_generate_keys(config, 2);
    let params = parameters_of(FheTypeId::Uint8).wopbs_block_parameters;
    let key = ConcreteServerKey::new_wopbs_key(&client_key, &server_key, params).unwrap();
    assert_eq!(key.secret_id, 1);
    assert!(matches!(
        ConcreteServerKey::new_wopbs_key(&other_client, &server_key, params),
        Err(FheError::InvalidArgument)
    ));
}

#[test]
fn status_codes_are_distinct() {
    let ok: Result<(), FheError> = Ok(());
    assert_eq!(status_code(&ok), STATUS_SUCCESS);
    let codes = [
        status_code::<()>(&Err(FheError::InvalidArgument)),
        status_code::<()>(&Err(FheError::UnsupportedType(FheTypeId::Bool))),
        status_code::<()>(&Err(FheError::MissingContext)),
        status_code::<()>(&Err(FheError::InternalFault)),
    ];
    assert_eq!(codes, [1, 2, 3, 4]);
}

#[test]
fn other_widths_evaluate_through_the_generic_container() {
    let mut builder = config_builder_all_disabled();
    builder.enable_default(FheTypeId::Uint10);
    let (_, context, _) = keys_for(config_builder_build(builder));
    let config = config_builder_build(builder);
    let a = try_encrypt(1000, FheTypeId::Uint10, &config).unwrap();
    let b = try_encrypt(100, FheTypeId::Uint10, &config).unwrap();
    let s = evaluate(BinaryOp::Add, &a, &b, &context).unwrap();
    assert_eq!(tfhe::integer::decrypt_u128(&s, &config), Ok(76));
    assert!(matches!(try_encrypt(1024, FheTypeId::Uint10, &config), Err(FheError::InvalidArgument)));
}
