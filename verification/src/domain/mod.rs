pub mod violations;
