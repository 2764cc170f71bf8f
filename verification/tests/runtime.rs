use ledger_runtime::support::{Block, Extrinsic, Header, RuntimeError};
use ledger_runtime::{balances, proof_of_existence, Runtime, RuntimeCall};

fn transfer(caller: &str, to: &str, amount: u128) -> Extrinsic<String, RuntimeCall> {
    Extrinsic {
        caller: caller.to_string(),
        call: RuntimeCall::Balances(balances::Call::Transfer {
            to: to.to_string(),
            amount,
        }),
    }
}

fn create_claim(caller: &str, content: &str) -> Extrinsic<String, RuntimeCall> {
    Extrinsic {
        caller: caller.to_string(),
        call: RuntimeCall::ProofOfExistence(proof_of_existence::Call::CreateClaim {
            content: content.to_string(),
        }),
    }
}

fn revoke_claim(caller: &str, content: &str) -> Extrinsic<String, RuntimeCall> {
    Extrinsic {
        caller: caller.to_string(),
        call: RuntimeCall::ProofOfExistence(proof_of_existence::Call::RevokeClaim {
            content: content.to_string(),
        }),
    }
}

#[test]
fn fresh_runtime_is_empty() {
    let runtime = Runtime::new();
    let alice = "alice".to_string();
    assert_eq!(runtime.system.block_number(), 0);
    assert_eq!(runtime.system.nonce(&alice), 0);
    assert_eq!(runtime.balances.balance(&alice), 0);
}

#[test]
fn block_of_transfers() {
    let mut runtime = Runtime::new();
    let alice = "alice".to_string();
    let bob = "bob".to_string();
    let charlie = "charlie".to_string();

    runtime.balances.set_balance(&alice, 100);
    assert_eq!(runtime.system.block_number(), 0);

    let block = Block {
        header: Header { block_number: 1 },
        extrinsics: vec![transfer("alice", "bob", 30), transfer("alice", "charlie", 20)],
    };
    assert_eq!(runtime.execute_block(block), Ok(()));

    assert_eq!(runtime.system.block_number(), 1);
    assert_eq!(runtime.balances.balance(&alice), 50);
    assert_eq!(runtime.balances.balance(&bob), 30);
    assert_eq!(runtime.balances.balance(&charlie), 20);
}

#[test]
fn nonce_counts_every_authored_extrinsic() {
    let mut runtime = Runtime::new();
    let alice = "alice".to_string();
    let bob = "bob".to_string();

    runtime.balances.set_balance(&alice, 10);
    let block = Block {
        header: Header { block_number: 1 },
        extrinsics: vec![
            transfer("alice", "bob", 7),
            // fails with InsufficientFunds, yet still costs a nonce
            transfer("alice", "bob", 1000),
            transfer("bob", "alice", 2),
        ],
    };
    assert_eq!(runtime.execute_block(block), Ok(()));
    assert_eq!(runtime.system.nonce(&alice), 2);
    assert_eq!(runtime.system.nonce(&bob), 1);
    assert_eq!(runtime.balances.balance(&alice), 5);
    assert_eq!(runtime.balances.balance(&bob), 5);
}

#[test]
fn mismatched_header_rejects_whole_block() {
    let mut runtime = Runtime::new();
    let alice = "alice".to_string();
    let bob = "bob".to_string();
    runtime.balances.set_balance(&alice, 100);

    let block = Block {
        header: Header { block_number: 5 },
        extrinsics: vec![transfer("alice", "bob", 30)],
    };
    assert_eq!(
        runtime.execute_block(block),
        Err(RuntimeError::BlockNumberMismatch)
    );

    // the advance made for the check is the only effect
    assert_eq!(runtime.system.block_number(), 1);
    assert_eq!(runtime.system.nonce(&alice), 0);
    assert_eq!(runtime.balances.balance(&alice), 100);
    assert_eq!(runtime.balances.balance(&bob), 0);
}

#[test]
fn failed_extrinsic_does_not_abort_block() {
    let mut runtime = Runtime::new();
    let alice = "alice".to_string();
    let content = "Hello, world!".to_string();

    let block_1 = Block {
        header: Header { block_number: 1 },
        extrinsics: vec![
            create_claim("alice", "Hello, world!"),
            create_claim("bob", "Hello, world!"),
        ],
    };
    assert_eq!(runtime.execute_block(block_1), Ok(()));
    assert_eq!(runtime.proof_of_existence.get_claim(&content), Some(&alice));

    let bob = "bob".to_string();
    let block_2 = Block {
        header: Header { block_number: 2 },
        extrinsics: vec![
            revoke_claim("alice", "Hello, world!"),
            create_claim("bob", "Hello, world!"),
        ],
    };
    assert_eq!(runtime.execute_block(block_2), Ok(()));
    assert_eq!(runtime.proof_of_existence.get_claim(&content), Some(&bob));
    assert_eq!(
        runtime.proof_of_existence.get_claim(&"Hello, world!!".to_string()),
        None
    );
}

#[test]
fn empty_block_still_advances_block_number() {
    let mut runtime = Runtime::new();
    let block = Block {
        header: Header { block_number: 1 },
        extrinsics: vec![],
    };
    assert_eq!(runtime.execute_block(block), Ok(()));
    assert_eq!(runtime.system.block_number(), 1);
}

#[test]
fn blocks_must_arrive_in_order() {
    let mut runtime = Runtime::new();
    let block_1 = Block {
        header: Header { block_number: 1 },
        extrinsics: vec![],
    };
    let block_2 = Block {
        header: Header { block_number: 2 },
        extrinsics: vec![],
    };
    let replay = Block {
        header: Header { block_number: 2 },
        extrinsics: vec![],
    };
    assert_eq!(runtime.execute_block(block_1), Ok(()));
    assert_eq!(runtime.execute_block(block_2), Ok(()));
    assert_eq!(
        runtime.execute_block(replay),
        Err(RuntimeError::BlockNumberMismatch)
    );
    assert_eq!(runtime.system.block_number(), 3);
}
