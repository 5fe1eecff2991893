[package]
name = "pundoc"
version = "0.1.0"
edition = "2021"
publish = false

[dependencies]
quoted-string = "=0.6.1"
regex = "=1.13.1"
isolang = "=2.4.0"
pulldown-cmark = { version = "=0.9.6", default-features = false }
lexical = "=6.1.1"
svgbob = "0.7"
