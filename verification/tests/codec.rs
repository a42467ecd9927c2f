use roots_viz::codec::decode;
use roots_viz::codec::encode;
use roots_viz::state::CoinFlipVisualizer;

#[test]
fn roundtrip_keeps_seven() {
    let state = CoinFlipVisualizer { roots: 7 };
    let payload: Vec<u8> = encode(&state);
    assert_eq!(payload, b"{\"roots\":7}".to_vec());
    let back = decode(&payload);
    assert_eq!(back.roots, 7);
}

#[test]
fn roundtrip_keeps_every_count() {
    for v in 0u16..256u16 {
        let state = CoinFlipVisualizer { roots: v as u8 };
        let back = decode(&encode(&state));
        assert_eq!(back.roots, v as u8);
    }
}

#[test]
fn missing_or_malformed_payload_falls_back_to_default() {
    assert_eq!(decode(&Vec::new()).roots, 3);
    assert_eq!(decode(&b"{}".to_vec()).roots, 3);
    assert_eq!(decode(&b"{\"roots\":}".to_vec()).roots, 3);
    assert_eq!(decode(&b"{\"roots\":999}".to_vec()).roots, 3);
    assert_eq!(decode(&b"{\"roots\":007}".to_vec()).roots, 3);
    assert_eq!(decode(&b"{\"roots\":x}".to_vec()).roots, 3);
    assert_eq!(decode(&b"{\"roots\":1234}".to_vec()).roots, 3);
    assert_eq!(decode(&b"{\"roots\":12".to_vec()).roots, 3);
    assert_eq!(decode(&b"(\"roots\":12)".to_vec()).roots, 3);
    assert_eq!(decode(&b"garbage".to_vec()).roots, 3);
}

#[test]
fn boundary_counts_roundtrip_exactly() {
    assert_eq!(encode(&CoinFlipVisualizer { roots: 0 }), b"{\"roots\":0}".to_vec());
    assert_eq!(encode(&CoinFlipVisualizer { roots: 10 }), b"{\"roots\":10}".to_vec());
    assert_eq!(encode(&CoinFlipVisualizer { roots: 255 }), b"{\"roots\":255}".to_vec());
    assert_eq!(decode(&b"{\"roots\":255}".to_vec()).roots, 255);
    assert_eq!(decode(&b"{\"roots\":0}".to_vec()).roots, 0);
}

#[test]
fn fresh_state_draws_three() {
    let state = CoinFlipVisualizer::default();
    assert_eq!(state.roots, 3);
}

#[test]
fn encoding_is_deterministic() {
    let state = CoinFlipVisualizer { roots: 42 };
    assert_eq!(encode(&state), encode(&state));
}
