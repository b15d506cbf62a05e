use hermes::decimal::Decimal;
use hermes::ledger::{make_sim_account, metrics, Ledger};
use hermes::trade::Closing;

fn d(s: &str) -> Decimal {
    let x: rust_decimal::Decimal = s.parse().unwrap();
    Decimal::from_parts(x.is_sign_negative(), x.mantissa().unsigned_abs(), x.scale()).unwrap()
}

fn closing(pnl: &str, friction: &str) -> Closing {
    Closing { exit: d("1"), pnl: d(pnl), friction: d(friction) }
}

#[test]
fn the_sim_account_is_all_free() {
    let a = make_sim_account(d("5000.5"));
    assert_eq!((a.login, a.leverage, a.trade_allowed, a.trade_expert), (0, 100, true, true));
    assert_eq!((a.currency.as_str(), a.currency_digits), ("USD", 2));
    assert_eq!((a.server.as_str(), a.name.as_str(), a.company.as_str()), ("sim", "sim", "sim"));
    for x in [a.balance, a.equity, a.margin_free] {
        assert_eq!(x, d("5000.5"));
    }
    for x in [a.profit, a.credit, a.margin, a.margin_level] {
        assert_eq!(x, d("0"));
    }
}

#[test]
fn a_book_is_kept() {
    let mut l = Ledger::new(d("1000"));
    l.record_exit(&closing("100", "1"), false).unwrap();
    l.record_exit(&closing("-30", "2"), true).unwrap();
    l.record_exit(&closing("-50", "3"), false).unwrap();
    l.record_timeout(&closing("-5", "4")).unwrap();
    l.record_exit(&closing("0", "5"), true).unwrap();
    l.record_exit(&closing("-1", "6"), false).unwrap();
    assert_eq!((l.trades, l.wins, l.losses, l.timeouts), (6, 2, 3, 1));
    assert_eq!(l.trades, l.wins + l.losses + l.timeouts);
    assert_eq!(l.be_sl_exits, 2);
    assert_eq!((l.cur_consec_loss, l.max_consec_loss), (1, 2));
    assert_eq!(l.balance, d("1014"));
    assert_eq!(l.peak, d("1100"));
    assert_eq!(l.max_drawdown, d("-86"));
    assert_eq!(l.total_pnl, d("14"));
    assert_eq!(l.total_friction, d("21"));
    assert_eq!((l.sum_wins, l.sum_losses), (d("100"), d("81")));
}

#[test]
fn an_overflow_books_nothing() {
    let mut l = Ledger::new(Decimal::max_value());
    assert!(l.record_exit(&closing("1", "0"), true).is_none());
    assert!(l.record_timeout(&closing("1", "0")).is_none());
    assert_eq!((l.trades, l.wins, l.be_sl_exits), (0, 0, 0));
    assert_eq!(l.balance, Decimal::max_value());
}

#[test]
fn metrics_of_a_book() {
    let mut l = Ledger::new(d("1000"));
    l.record_exit(&closing("100", "1"), false).unwrap();
    l.record_exit(&closing("50", "1"), false).unwrap();
    l.record_exit(&closing("-30", "2"), true).unwrap();
    l.record_timeout(&closing("-20", "4")).unwrap();
    let m = metrics(&l, d("1000")).unwrap();
    assert_eq!(m.avg_win, d("75"));
    assert_eq!(m.avg_loss, d("30"));
    assert_eq!(m.expectancy, d("25"));
    assert_eq!(m.profit_factor, d("5"));
    assert_eq!(m.return_pct, d("10"));
    assert_eq!(m.avg_friction, d("2"));
}

#[test]
fn metrics_of_an_empty_book() {
    let l = Ledger::new(d("1000"));
    let m = metrics(&l, d("1000")).unwrap();
    for x in [m.avg_win, m.avg_loss, m.expectancy, m.return_pct, m.avg_friction] {
        assert_eq!(x, d("0"));
    }
    assert_eq!(m.profit_factor, Decimal::max_value());
    assert!(metrics(&Ledger::new(d("0")), d("0")).is_none());
}
