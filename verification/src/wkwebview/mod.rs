pub mod urlscheme;
