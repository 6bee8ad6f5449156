use banklib::{Bank, Operation};

#[test]
fn create_bank() {
    let b = Bank::new();
    assert_eq!(0, b.get_history().len());
    assert_eq!(0, b.account_count());
}

#[test]
fn create_account() {
    let mut b = Bank::new();
    let _ = b.create_account("X".to_string());
    assert_eq!(1, b.get_history().len());
    assert_eq!(1, b.account_count());
}

#[test]
fn create_account_twice() {
    let mut b = Bank::new();
    let _ = b.create_account("X".to_string());
    let x = b.create_account("X".to_string());
    assert!(x.is_err());
}

#[test]
fn increase_account() {
    let mut bank = Bank::new();
    let _ = bank.create_account("X".to_string());
    let x = bank.increase_account("X".to_string(), 10);
    assert!(x.is_ok());
    let balance = bank.get_account_balance("X".to_string()).unwrap();
    assert_eq!(10, balance);
}

#[test]
fn increase_account_zero() {
    let mut bank = Bank::new();
    let _ = bank.create_account("X".to_string());
    let x = bank.increase_account("X".to_string(), 0);
    assert!(x.is_err());
}

#[test]
fn increase_no_account() {
    let mut bank = Bank::new();
    let x = bank.increase_account("X".to_string(), 10);
    assert!(x.is_err());
}

#[test]
fn get_account_balance() {
    let mut bank = Bank::new();
    let _ = bank.create_account("X".to_string());
    let x = bank.get_account_balance("X".to_string());
    assert!(x.is_ok());
    assert_eq!(0, x.unwrap());
}

#[test]
fn get_no_account_balance() {
    let bank = Bank::new();
    let x = bank.get_account_balance("X".to_string());
    assert!(x.is_err());
}

#[test]
fn decrease_from_no_account() {
    let mut bank = Bank::new();
    let _ = bank.create_account("X".to_string());
    let x = bank.decrease_account("Y".to_string(), 5);
    assert!(x.is_err());
}

#[test]
fn decrease_account() {
    let mut bank = Bank::new();
    let _ = bank.create_account("X".to_string());
    let _ = bank.increase_account("X".to_string(), 10);
    let x = bank.decrease_account("X".to_string(), 5);
    assert!(x.is_ok());
    let balance = bank.get_account_balance("X".to_string()).unwrap();
    assert_eq!(5, balance);
}

#[test]
fn decrease_no_account() {
    let mut bank = Bank::new();
    let x = bank.decrease_account("X".to_string(), 5);
    assert!(x.is_err());
}

#[test]
fn decrease_account_zero() {
    let mut bank = Bank::new();
    let _ = bank.create_account("X".to_string());
    let x = bank.decrease_account("X".to_string(), 0);
    assert!(x.is_err());
}

#[test]
fn decrease_account_too_much() {
    let mut bank = Bank::new();
    let _ = bank.create_account("X".to_string());
    let _ = bank.increase_account("X".to_string(), 10);
    let x = bank.decrease_account("X".to_string(), 20);
    assert!(x.is_err());
}

#[test]
fn transfer() {
    let mut bank = Bank::new();
    let _ = bank.create_account("X".to_string());
    let _ = bank.create_account("Y".to_string());
    let _ = bank.increase_account("X".to_string(), 10);
    let x = bank.transfer("X".to_string(), "Y".to_string(), 5);
    assert!(x.is_ok());
    let balance = bank.get_account_balance("X".to_string()).unwrap();
    assert_eq!(5, balance);
    let balance = bank.get_account_balance("Y".to_string()).unwrap();
    assert_eq!(5, balance);
}

#[test]
fn transfer_zero() {
    let mut bank = Bank::new();
    let _ = bank.create_account("X".to_string());
    let _ = bank.create_account("Y".to_string());
    let _ = bank.increase_account("X".to_string(), 10);
    let x = bank.transfer("X".to_string(), "Y".to_string(), 0);
    assert!(x.is_err());
}

#[test]
fn transfer_to_self() {
    let mut bank = Bank::new();
    let _ = bank.create_account("X".to_string());
    let _ = bank.increase_account("X".to_string(), 10);
    let x = bank.transfer("X".to_string(), "X".to_string(), 5);
    assert!(x.is_err());
}

#[test]
fn transfer_to_no_account() {
    let mut bank = Bank::new();
    let _ = bank.create_account("X".to_string());
    let _ = bank.increase_account("X".to_string(), 10);
    let x = bank.transfer("X".to_string(), "Y".to_string(), 5);
    assert!(x.is_err());
}

#[test]
fn history_create_account() {
    let mut bank = Bank::new();
    let _ = bank.create_account("X".to_string());

    let id = 0;
    assert_eq!(
        Operation::CreateAccount("X".to_string()),
        *bank.get_history().get(id).unwrap()
    );
    assert_eq!(
        id,
        *bank
            .get_account_operations("X".to_string())
            .unwrap()
            .get(0)
            .unwrap()
    );
}

#[test]
fn history_increase_account() {
    let mut bank = Bank::new();
    let _ = bank.create_account("X".to_string());
    let _ = bank.increase_account("X".to_string(), 10);

    let id = 1;
    assert_eq!(
        Operation::IncreaseAccount("X".to_string(), 10),
        *bank.get_history().get(id).unwrap()
    );
    assert_eq!(
        id,
        *bank
            .get_account_operations("X".to_string())
            .unwrap()
            .get(1)
            .unwrap()
    );
}

#[test]
fn history_decrease_account() {
    let mut bank = Bank::new();
    let _ = bank.create_account("X".to_string());
    let _ = bank.increase_account("X".to_string(), 10);
    let _ = bank.decrease_account("X".to_string(), 5);

    let id = 2;
    assert_eq!(
        Operation::DecreaseAccount("X".to_string(), 5),
        *bank.get_history().get(id).unwrap()
    );
    assert_eq!(
        id,
        *bank
            .get_account_operations("X".to_string())
            .unwrap()
            .get(2)
            .unwrap()
    );
}

#[test]
fn history_transfer() {
    let mut bank = Bank::new();
    let _ = bank.create_account("X".to_string());
    let _ = bank.create_account("Y".to_string());
    let _ = bank.increase_account("X".to_string(), 10);
    let _ = bank.transfer("X".to_string(), "Y".to_string(), 5);

    let id = 3;
    assert_eq!(
        Operation::Transfer("X".to_string(), "Y".to_string(), 5),
        *bank.get_history().get(id).unwrap()
    );
    assert_eq!(
        id,
        *bank
            .get_account_operations("X".to_string())
            .unwrap()
            .get(2)
            .unwrap()
    );
    assert_eq!(
        id,
        *bank
            .get_account_operations("Y".to_string())
            .unwrap()
            .get(1)
            .unwrap()
    );
}

#[test]
fn get_account_history() {
    let mut bank = Bank::new();
    let _ = bank.create_account("X".to_string());
    let _ = bank.create_account("Y".to_string());
    let _ = bank.increase_account("X".to_string(), 10);
    let _ = bank.decrease_account("X".to_string(), 5);
    let _ = bank.transfer("X".to_string(), "Y".to_string(), 5);
    let history = bank.get_account_history("X".to_string()).unwrap();
    assert_eq!(4, history.len());
    assert_eq!(
        Operation::CreateAccount("X".to_string()),
        *history.get(0).unwrap()
    );
    assert_eq!(
        Operation::IncreaseAccount("X".to_string(), 10),
        *history.get(1).unwrap()
    );
    assert_eq!(
        Operation::DecreaseAccount("X".to_string(), 5),
        *history.get(2).unwrap()
    );
    assert_eq!(
        Operation::Transfer("X".to_string(), "Y".to_string(), 5),
        *history.get(3).unwrap()
    );
}

#[test]
fn get_no_account_history() {
    let bank = Bank::new();
    let history = bank.get_account_history("X".to_string());
    assert!(history.is_none());
}

#[test]
fn restore() {
    let mut bank = Bank::new();
    let _ = bank.create_account("X".to_string());
    let _ = bank.create_account("Y".to_string());
    let _ = bank.increase_account("X".to_string(), 10);
    let _ = bank.transfer("X".to_string(), "Y".to_string(), 5);

    let mut new_bank = Bank::new();
    let _ = new_bank.restore(bank.get_history());
    assert_eq!(4, new_bank.get_history().len());
    assert_eq!(5, new_bank.get_account_balance("X".to_string()).unwrap());
    assert_eq!(5, new_bank.get_account_balance("X".to_string()).unwrap());

    assert_eq!(bank.get_history().len(), new_bank.get_history().len());
}
