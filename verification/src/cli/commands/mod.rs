pub mod backtest;
