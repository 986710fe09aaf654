use zero_bin::gascalc::{gas_fits, get_block_number, get_gas_used, print_block_info, Block, Transaction, Watch};
use zero_bin::words::Word;

fn block(number: Option<u64>, gas: &[u64]) -> Block {
    let mut transactions = Vec::new();
    for g in gas {
        transactions.push(Transaction { gas: Word { limbs: [*g, 0, 0, 0] } });
    }
    Block { number, transactions }
}

#[test]
fn gas_is_summed_up() {
    assert_eq!(get_gas_used(&block(Some(1), &[])), 0);
    assert_eq!(get_gas_used(&block(Some(1), &[21000, 50000, 1])), 71001);
    assert_eq!(get_block_number(&block(Some(17), &[])), 17);
}

#[test]
fn gas_that_does_not_fit_is_noticed() {
    assert!(gas_fits(&block(None, &[1, 2])));
    assert!(gas_fits(&block(None, &[usize::MAX as u64])));
    assert!(!gas_fits(&block(None, &[usize::MAX as u64, 1])));
    let huge = Block { number: None, transactions: vec![Transaction { gas: Word { limbs: [0, 0, 0, 1] } }] };
    assert!(!gas_fits(&huge));
}

#[test]
fn block_is_printed_in_words() {
    assert_eq!(print_block_info(&block(Some(12), &[3, 4])), "Latest block number: 12, Gas used: 7");
}

#[test]
fn each_new_block_is_printed_once() {
    let mut watch = Watch::new();
    assert_eq!(watch.observe(&block(Some(0), &[1])), None);
    assert_eq!(watch.observe(&block(Some(5), &[1])), Some(String::from("Latest block number: 5, Gas used: 1")));
    assert_eq!(watch.observe(&block(Some(5), &[1])), None);
    assert_eq!(watch.observe(&block(Some(4), &[])), Some(String::from("Latest block number: 4, Gas used: 0")));
    assert_eq!(watch.previous_block_number, 4);
}
