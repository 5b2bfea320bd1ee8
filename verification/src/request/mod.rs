pub mod body;
