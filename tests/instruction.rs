use borsh::BorshSerialize;
use echo_program::error::EchoError;
use echo_program::instruction::EchoInstruction;

#[test]
fn serialize_echo() {
    let echo = EchoInstruction::Echo {
        data: vec![1, 2, 16, 64, 128],
    };
    let mut buffer: Vec<u8> = Vec::new();
    echo.serialize(&mut buffer).unwrap();
    println!("{:?}", buffer);
}

#[test]
fn serialize_echo_bytes() {
    let echo = EchoInstruction::Echo {
        data: vec![1, 2, 16, 64, 128],
    };
    let mut buffer: Vec<u8> = Vec::new();
    assert_eq!(echo.serialize(&mut buffer), Ok(()));
    assert_eq!(buffer, vec![0, 5, 0, 0, 0, 1, 2, 16, 64, 128]);
}

#[test]
fn serialize_matches_borsh_layout() {
    let data: Vec<u8> = vec![9, 8, 7];
    let mut expected: Vec<u8> = 2u8.try_to_vec().unwrap();
    expected.extend(data.try_to_vec().unwrap());
    let mut buffer: Vec<u8> = Vec::new();
    EchoInstruction::AuthorizedEcho { data }
        .serialize(&mut buffer)
        .unwrap();
    assert_eq!(buffer, expected);

    let mut expected: Vec<u8> = 1u8.try_to_vec().unwrap();
    expected.extend(7u64.try_to_vec().unwrap());
    expected.extend(4u64.try_to_vec().unwrap());
    let mut buffer: Vec<u8> = Vec::new();
    EchoInstruction::InitializeAuthorizedEcho {
        buffer_seed: 7,
        buffer_size: 4,
    }
    .serialize(&mut buffer)
    .unwrap();
    assert_eq!(buffer, expected);
}

#[test]
fn serialize_appends_to_existing_bytes() {
    let mut buffer: Vec<u8> = vec![42];
    EchoInstruction::VendingMachineEcho { data: vec![] }
        .serialize(&mut buffer)
        .unwrap();
    assert_eq!(buffer, vec![42, 4, 0, 0, 0, 0]);
    let mut buffer: Vec<u8> = Vec::new();
    EchoInstruction::InitializeVendingMachineEcho {
        price: 0x0102,
        buffer_size: 3,
    }
    .serialize(&mut buffer)
    .unwrap();
    assert_eq!(
        buffer,
        vec![3, 2, 1, 0, 0, 0, 0, 0, 0, 3, 0, 0, 0, 0, 0, 0, 0]
    );
}

fn wire(ins: &EchoInstruction) -> Vec<u8> {
    let mut out: Vec<u8> = Vec::new();
    ins.serialize(&mut out).unwrap();
    out
}

#[test]
fn decode_reads_each_variant_back() {
    let cases = vec![
        EchoInstruction::Echo { data: vec![1, 2, 3] },
        EchoInstruction::InitializeAuthorizedEcho {
            buffer_seed: 7,
            buffer_size: 4,
        },
        EchoInstruction::AuthorizedEcho { data: vec![] },
        EchoInstruction::InitializeVendingMachineEcho {
            price: u64::MAX,
            buffer_size: 0,
        },
        EchoInstruction::VendingMachineEcho { data: vec![255; 40] },
    ];
    for ins in cases {
        let bytes = wire(&ins);
        let back = EchoInstruction::try_from_slice(&bytes).unwrap();
        assert_eq!(wire(&back), bytes);
        assert_eq!(format!("{:?}", back), format!("{:?}", ins));
    }
}

#[test]
fn decode_rejects_malformed_bytes() {
    let bad: Vec<Vec<u8>> = vec![
        vec![],
        vec![5],
        vec![0, 1, 0, 0],
        vec![0, 2, 0, 0, 0, 9],
        vec![2, 1, 0, 0, 0, 9, 9],
        vec![1, 7, 0, 0, 0, 0, 0, 0, 0, 4, 0, 0, 0, 0, 0, 0],
        vec![1, 7, 0, 0, 0, 0, 0, 0, 0, 4, 0, 0, 0, 0, 0, 0, 0, 0],
    ];
    for bytes in bad {
        assert_eq!(
            EchoInstruction::try_from_slice(&bytes).err(),
            Some(EchoError::InvalidInstructionData)
        );
    }
}

#[test]
fn decode_initialize_fields() {
    let bytes = [1u8, 7, 0, 0, 0, 0, 0, 0, 0, 4, 0, 0, 0, 0, 0, 0, 0];
    match EchoInstruction::try_from_slice(&bytes).unwrap() {
        EchoInstruction::InitializeAuthorizedEcho {
            buffer_seed,
            buffer_size,
        } => {
            assert_eq!(buffer_seed, 7);
            assert_eq!(buffer_size, 4);
        }
        other => panic!("unexpected {:?}", other),
    }
}
